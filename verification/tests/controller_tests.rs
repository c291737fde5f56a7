use led_matrix::controller::Controller;

#[test]
fn marker_plus_191_bytes_completes_exactly_one_frame() {
    let mut c = Controller::new();
    assert!(c.published().is_none());
    c.receive_byte(0xFF);
    assert!(c.collecting());
    assert_eq!(c.pos(), 1);
    for _ in 0..191 {
        c.receive_byte(0);
    }
    // The frame is complete: published, parser idle again.
    assert!(!c.collecting());
    assert_eq!(c.pos(), 0);
    let frame = c.published().expect("one frame should be published");
    for i in 0..192 {
        assert_eq!(frame.get_byte(i), 0);
    }
    // One more data byte belongs to no frame: nothing changes.
    c.receive_byte(42);
    assert!(!c.collecting());
    assert_eq!(c.pos(), 0);
    assert!(c.published().is_some());
}

#[test]
fn marker_mid_stream_discards_progress() {
    let mut c = Controller::new();
    c.receive_byte(0xFF);
    for _ in 0..100 {
        c.receive_byte(7);
    }
    assert_eq!(c.pos(), 101);
    c.receive_byte(0xFF);
    assert!(c.collecting());
    assert_eq!(c.pos(), 1);
    assert!(c.published().is_none());
    // The restarted frame still needs its full 191 bytes.
    for _ in 0..190 {
        c.receive_byte(9);
    }
    assert!(c.published().is_none());
    c.receive_byte(9);
    assert!(c.published().is_some());
}

#[test]
fn data_bytes_without_marker_change_nothing() {
    let mut c = Controller::new();
    for b in [0u8, 1, 2, 100, 254] {
        c.receive_byte(b);
    }
    assert!(!c.collecting());
    assert_eq!(c.pos(), 0);
    assert!(c.published().is_none());
    let img = c.current();
    for i in 0..192 {
        assert_eq!(img.get_byte(i), 0);
    }
}

#[test]
fn payload_fills_byte_positions_one_to_191() {
    let mut c = Controller::new();
    c.receive_byte(0xFF);
    for i in 0..191u8 {
        c.receive_byte(i.wrapping_add(1).min(0xFE));
    }
    let frame = c.published().expect("frame published");
    // Position 0 keeps the fresh buffer's default; the first payload
    // byte lands at position 1.
    assert_eq!(frame.get_byte(0), 0);
    assert_eq!(frame.get_byte(1), 1);
    assert_eq!(frame.get_byte(2), 2);
}

#[test]
fn newer_frame_supersedes_unconsumed_one() {
    let mut c = Controller::new();
    c.receive_byte(0xFF);
    for _ in 0..191 {
        c.receive_byte(10);
    }
    assert_eq!(c.published().unwrap().get_byte(5), 10);
    c.receive_byte(0xFF);
    for _ in 0..191 {
        c.receive_byte(20);
    }
    // The unconsumed frame was discarded and replaced by the newer one.
    assert_eq!(c.published().unwrap().get_byte(5), 20);
}

#[test]
fn swap_is_observed_only_at_frame_boundary() {
    let mut c = Controller::new();
    // Start a refresh: render rows 0, 1 and 2.
    for _ in 0..3 {
        c.display_tick();
    }
    assert_eq!(c.next_row(), 3);
    // A full frame arrives mid-refresh.
    c.receive_byte(0xFF);
    for _ in 0..191 {
        c.receive_byte(5);
    }
    assert!(c.published().is_some());
    // Rows 3 through 6: the rendered frame is still the old (black) one.
    for _ in 0..4 {
        c.display_tick();
        let img = c.current();
        assert_eq!(img.get_byte(100), 0);
    }
    assert_eq!(c.next_row(), 7);
    assert!(c.published().is_some());
    // Row 7 ends the frame: only now is the published frame swapped in.
    c.display_tick();
    assert_eq!(c.next_row(), 0);
    assert!(c.published().is_none());
    let img = c.current();
    assert_eq!(img.get_byte(0), 0); // the marker-slot quirk
    assert_eq!(img.get_byte(1), 5);
    assert_eq!(img.get_byte(100), 5);
    assert_eq!(img.get_byte(191), 5);
}

#[test]
fn tick_without_published_frame_keeps_current() {
    let mut c = Controller::new();
    for _ in 0..8 {
        c.display_tick();
    }
    assert_eq!(c.next_row(), 0);
    assert!(c.published().is_none());
    let img = c.current();
    for i in 0..192 {
        assert_eq!(img.get_byte(i), 0);
    }
}

#[test]
fn ticks_extend_the_pin_trace_row_by_row() {
    let mut c = Controller::new();
    let init_len = c.events().len();
    assert!(init_len > 0);
    let _ = c.take_events();
    c.display_tick();
    // One row: 24 bytes of 24 events each, one row drop, one row raise,
    // two latch events.
    assert_eq!(c.events().len(), 24 * 24 + 4);
    c.display_tick();
    assert_eq!(c.events().len(), 2 * (24 * 24 + 4));
}

#[test]
fn receive_does_not_touch_the_pin_trace() {
    let mut c = Controller::new();
    let len_before = c.events().len();
    c.receive_byte(0xFF);
    for _ in 0..191 {
        c.receive_byte(33);
    }
    assert_eq!(c.events().len(), len_before);
}
