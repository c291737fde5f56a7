use led_matrix::color::Color;
use led_matrix::image::Image;
use led_matrix::matrix::{Line, Matrix, PinEvent};

/// The bytes shifted out in a trace: the data-line level sampled at every
/// rising clock edge, grouped 8 bits per byte, most significant first.
fn shifted_bytes(events: &[PinEvent]) -> Vec<u8> {
    let mut sda = false;
    let mut bits: Vec<bool> = Vec::new();
    for e in events {
        match e {
            PinEvent::Level { line: Line::Sda, high } => sda = *high,
            PinEvent::Level { line: Line::Sck, high: true } => bits.push(sda),
            _ => {}
        }
    }
    let mut bytes: Vec<u8> = Vec::new();
    for chunk in bits.chunks(8) {
        if chunk.len() == 8 {
            let mut b: u8 = 0;
            for bit in chunk {
                b = (b << 1) | (*bit as u8);
            }
            bytes.push(b);
        }
    }
    bytes
}

fn fresh_matrix() -> Matrix {
    let mut m = Matrix::new();
    let _ = m.take_events();
    m
}

#[test]
fn init_sequence_shape() {
    let m = Matrix::new();
    let ev = m.events();
    // 13 configuration events, one settle, one reset, then the bank:
    // blank low, 144 bits of 3 events each, a 2-event latch pulse,
    // blank high.
    assert_eq!(ev.len(), 13 + 1 + 1 + 1 + 144 * 3 + 2 + 1);
    assert!(matches!(ev[0], PinEvent::Level { line: Line::Sb, high: true }));
    assert!(matches!(ev[1], PinEvent::Level { line: Line::Lat, high: true }));
    assert!(matches!(ev[2], PinEvent::Level { line: Line::Rst, high: true }));
    assert!(matches!(ev[13], PinEvent::Settle { ms: 100 }));
    assert!(matches!(ev[14], PinEvent::Level { line: Line::Rst, high: true }));
    assert!(matches!(ev[15], PinEvent::Level { line: Line::Sb, high: false }));
    assert!(matches!(ev[ev.len() - 1], PinEvent::Level { line: Line::Sb, high: true }));
}

#[test]
fn init_bank_shifts_144_one_bits() {
    let m = Matrix::new();
    let bytes = shifted_bytes(m.events());
    assert_eq!(bytes.len(), 18);
    assert!(bytes.iter().all(|b| *b == 0xFF));
}

#[test]
fn send_row_emits_gamma_corrected_bgr_for_columns_descending() {
    let mut m = fresh_matrix();
    let colors = [
        Color { r: 1, g: 2, b: 3 },
        Color { r: 50, g: 60, b: 70 },
        Color { r: 100, g: 110, b: 120 },
        Color { r: 130, g: 140, b: 150 },
        Color { r: 160, g: 170, b: 180 },
        Color { r: 190, g: 200, b: 210 },
        Color { r: 220, g: 230, b: 240 },
        Color { r: 250, g: 252, b: 255 },
    ];
    m.send_row(2, &colors);
    let bytes = shifted_bytes(m.events());
    assert_eq!(bytes.len(), 24);
    for k in 0..8 {
        let g = colors[7 - k].gamma_correct();
        assert_eq!(bytes[3 * k], g.b);
        assert_eq!(bytes[3 * k + 1], g.g);
        assert_eq!(bytes[3 * k + 2], g.r);
    }
}

#[test]
fn send_row_control_events_at_fixed_points() {
    let mut m = fresh_matrix();
    let colors = [Color { r: 255, g: 255, b: 255 }; 8];
    m.send_row(2, &colors);
    let ev = m.events();
    // 7 bytes of 24 events each, then the previous row (1) drops.
    assert!(matches!(ev[7 * 24], PinEvent::Level { line: Line::RowSel(1), high: false }));
    // 17 more bytes, then row 2 rises and the latch pulses low-high.
    let tail = 7 * 24 + 1 + 17 * 24;
    assert!(matches!(ev[tail], PinEvent::Level { line: Line::RowSel(2), high: true }));
    assert!(matches!(ev[tail + 1], PinEvent::Level { line: Line::Lat, high: false }));
    assert!(matches!(ev[tail + 2], PinEvent::Level { line: Line::Lat, high: true }));
    assert_eq!(ev.len(), tail + 3);
}

#[test]
fn send_row_zero_deasserts_row_seven() {
    let mut m = fresh_matrix();
    let colors = [Color { r: 0, g: 0, b: 0 }; 8];
    m.send_row(0, &colors);
    let ev = m.events();
    assert!(matches!(ev[7 * 24], PinEvent::Level { line: Line::RowSel(7), high: false }));
}

#[test]
fn display_image_emits_eight_rows_in_order() {
    let mut m = fresh_matrix();
    let img = Image::new_solid(Color { r: 10, g: 20, b: 30 });
    m.display_image(&img);
    let ev = m.events();
    let row_len = 24 * 24 + 4;
    assert_eq!(ev.len(), 8 * row_len);
    for row in 0..8u8 {
        let base = row as usize * row_len;
        let prev = if row == 0 { 7 } else { row - 1 };
        match ev[base + 7 * 24] {
            PinEvent::Level { line: Line::RowSel(r), high: false } => assert_eq!(r, prev),
            _ => panic!("expected a row deassert event"),
        }
        match ev[base + 7 * 24 + 1 + 17 * 24] {
            PinEvent::Level { line: Line::RowSel(r), high: true } => assert_eq!(r, row),
            _ => panic!("expected a row assert event"),
        }
    }
}
