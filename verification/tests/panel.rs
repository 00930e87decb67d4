//! Buttons, messages and the screen.
use growhat::button::{button_snapshots, virtual_press, ButtonEvent, ButtonState};
use growhat::canvas::{draw_text, fill_rect, rgb565, rotated_rgb565_bytes, HEIGHT, WIDTH};
use growhat::display;
use growhat::glyph::glyph;
use growhat::message::{layout_message, message_fits};
use growhat::panel::{PanelCommand, PanelState, Settling, Startup};
use growhat::screen::{display_lines, render, Address, ScreenReading, ScreenState};
use growhat::sensor::ReadingStatus;

const MS: u128 = 1_000_000;

#[test]
fn debounce_counts_presses_once_and_reports_release() {
    let mut button = ButtonState::default();
    assert_eq!(button.observe("A", true, 0), None);
    assert_eq!(button.observe("A", true, 29 * MS), None);
    assert_eq!(button.observe("A", true, 30 * MS).unwrap().count, 1);
    assert_eq!(button.observe("A", true, 1000 * MS), None);
    assert_eq!(button.observe("A", false, 2000 * MS), None);
    let released = button.observe("A", false, 2030 * MS).unwrap();
    assert!(!released.pressed);
    assert_eq!(released.count, 1);
}

#[test]
fn startup_snapshot_reports_held_without_counting_it() {
    let mut buttons: [ButtonState; 4] = std::array::from_fn(|_| ButtonState::default());
    buttons[0].raw = true;
    buttons[0].stable = true;
    let events = button_snapshots(&buttons);
    assert_eq!(
        events[0],
        ButtonEvent {
            button: "A".into(),
            pressed: true,
            count: 0
        }
    );
    assert_eq!(
        events[1],
        ButtonEvent {
            button: "B".into(),
            pressed: false,
            count: 0
        }
    );
    assert_eq!(events[2].button, "X");
    assert_eq!(events[3].button, "Y");
}

#[test]
fn virtual_press_increments_count_without_faking_a_physical_hold() {
    let mut buttons: [ButtonState; 4] = std::array::from_fn(|_| ButtonState::default());
    assert_eq!(virtual_press(&mut buttons, "A").unwrap().count, 1);
    assert_eq!(virtual_press(&mut buttons, "A").unwrap().count, 2);
    assert!(!virtual_press(&mut buttons, "A").unwrap().pressed);
    assert!(virtual_press(&mut buttons, "Q").is_none());
}

#[test]
fn message_wraps_into_five_lines_and_marks_overflow() {
    let exact = "A".repeat(120);
    assert!(message_fits(&exact));
    let (lines, overflow) = layout_message(&exact);
    assert!(!overflow);
    assert_eq!(lines.len(), 5);
    assert!(lines.iter().all(|line| line.len() == 24));
    assert_eq!(layout_message("top\nsecond").0, vec!["top", "second"]);
    assert!(!message_fits(&format!("{exact}X")));
    assert!(layout_message(&format!("{exact}X")).0[4].ends_with("..."));
}

#[test]
fn rotation_matches_vendor_clockwise_layout() {
    let mut pixels = vec![0; WIDTH * HEIGHT];
    pixels[0] = 0x1234;
    pixels[79 * WIDTH + 159] = 0xabcd;
    let bytes = rotated_rgb565_bytes(&pixels);
    assert_eq!(bytes.len(), WIDTH * HEIGHT * 2);
    assert_eq!(&bytes[79 * 2..79 * 2 + 2], &[0x12, 0x34]);
    assert_eq!(
        &bytes[(WIDTH * HEIGHT - 80) * 2..(WIDTH * HEIGHT - 80) * 2 + 2],
        &[0xab, 0xcd]
    );
}

#[test]
fn printable_ascii_has_drawable_glyphs() {
    let fallback = glyph('\0');
    for byte in 32u8..=126 {
        let ch = (byte as char).to_ascii_uppercase();
        assert_ne!(glyph(ch), fallback, "missing glyph for {ch}");
    }
}

fn reading(status: ReadingStatus) -> ScreenReading {
    ScreenReading {
        channel: 1,
        status,
        percent: "50".into(),
        hertz: "10.0".into(),
    }
}

fn address(a: u8, b: u8, c: u8, d: u8) -> Option<Address> {
    Some(Address { a, b, c, d })
}

#[test]
fn renderer_uses_message_and_reading_status() {
    let mut state = ScreenState {
        message: Some("Test display".into()),
        readings: vec![reading(ReadingStatus::Valid)],
        ..ScreenState::default()
    };
    assert_eq!(
        layout_message(state.message.as_deref().unwrap()).0[0],
        "Test display"
    );
    assert_eq!(display_lines(&state)[1], "M1: 50%  10.0Hz");
    assert_eq!(display_lines(&state)[0], "IP unavailable #0000");
    state.ip_address = address(192, 168, 1, 216);
    state.sample_number = 1;
    assert_eq!(display_lines(&state)[0], "IP 192.168.1.216 #0001");
    state.ip_address = address(255, 255, 255, 255);
    assert!(display_lines(&state)[0].len() <= 25);
    assert_eq!(render(&state).len(), WIDTH * HEIGHT);
    state.readings[0].status = ReadingStatus::Stale;
    assert_eq!(display_lines(&state)[1], "M1: STALE");
    state.readings[0].status = ReadingStatus::NoSignal;
    assert_eq!(display_lines(&state)[1], "M1: NO SIGNAL");
}

#[test]
fn lines_show_each_channel_and_the_last_four_digits() {
    let mut state = ScreenState::default();
    state.sample_number = 1_234_567;
    let mut third = reading(ReadingStatus::Uncalibrated);
    third.channel = 3;
    state.readings = vec![reading(ReadingStatus::Invalid), third];
    assert_eq!(
        display_lines(&state),
        vec![
            "IP unavailable #4567",
            "M1: INVALID",
            "M2: --",
            "M3: 10.0Hz  no cal"
        ]
    );
}

#[test]
fn control_characters_do_not_show_and_a_short_last_line_is_marked() {
    assert_eq!(layout_message("a\tb\u{7f}c").0, vec!["abc"]);
    assert_eq!(layout_message("").0, vec![""]);
    assert_eq!(
        layout_message("1\n2\n3\n4\n5x\n6").0,
        vec!["1", "2", "3", "4", "..."]
    );
    assert_eq!(
        layout_message("1\n2\n3\n4\nabcdef\n").0[4],
        "abc..."
    );
    let exact = "B".repeat(24);
    assert_eq!(layout_message(&format!("{exact}\nC")).0, vec![exact.as_str(), "C"]);
    assert_eq!(layout_message(&format!("{exact}\u{1}")).0, vec![exact.as_str(), ""]);
}

#[test]
fn colours_keep_the_upper_bits() {
    assert_eq!(rgb565(255, 255, 255), 0xffff);
    assert_eq!(rgb565(0, 0, 0), 0);
    assert_eq!(rgb565(8, 20, 28), (1 << 11) | (5 << 5) | 3);
    assert_eq!(rgb565(7, 3, 7), 0);
}

#[test]
fn rectangles_are_clipped_to_the_screen() {
    let mut pixels = vec![0u16; WIDTH * HEIGHT];
    fill_rect(&mut pixels, 158, 79, 10, 10, 9);
    let filled: Vec<usize> = (0..pixels.len()).filter(|k| pixels[*k] == 9).collect();
    assert_eq!(filled, vec![79 * WIDTH + 158, 79 * WIDTH + 159]);
    fill_rect(&mut pixels, 500, 500, 3, 3, 8);
    assert!(!pixels.contains(&8));
}

#[test]
fn text_is_drawn_dot_by_dot_in_capitals() {
    let mut pixels = vec![0u16; WIDTH * HEIGHT];
    draw_text(&mut pixels, 10, 20, "i", 7);
    let expected = [31u8, 4, 4, 4, 4, 4, 31];
    for (row, bits) in expected.iter().enumerate() {
        for col in 0..6 {
            let lit = col < 5 && bits & (1 << (4 - col)) != 0;
            let pixel = pixels[(20 + row) * WIDTH + 10 + col];
            assert_eq!(pixel == 7, lit);
        }
    }
    assert_eq!(pixels.iter().filter(|p| **p != 0).count(), 15);
    let mut pixels = vec![0u16; WIDTH * HEIGHT];
    draw_text(&mut pixels, 155, 0, "I", 7);
    draw_text(&mut pixels, 400, 0, "I", 7);
    assert!(pixels.iter().all(|p| *p == 0));
    draw_text(&mut pixels, 0, 78, "I", 7);
    assert_eq!(pixels.iter().filter(|p| **p == 7).count(), 6);
}

#[test]
fn a_message_leaves_the_button_rows_alone() {
    let mut state = ScreenState::default();
    state.buttons[1].stable = true;
    state.buttons[1].count = 42;
    let plain = render(&state);
    state.message = Some("#".repeat(300));
    let shown = render(&state);
    assert_ne!(plain, shown);
    assert_eq!(plain[47 * WIDTH..], shown[47 * WIDTH..]);
    assert_eq!(plain[60 * WIDTH + 45], rgb565(0, 220, 150));
    assert_eq!(plain[60 * WIDTH + 5], rgb565(30, 55, 65));
}

#[test]
fn setup_and_frames_become_transfers() {
    let transfers = display::setup();
    assert_eq!(transfers[0].bytes, vec![0x01]);
    assert_eq!(transfers[0].wait_ms, 150);
    assert_eq!(transfers[1].wait_ms, 500);
    assert_eq!(transfers[2].bytes, vec![0xb1]);
    assert!(!transfers[2].is_data);
    assert_eq!(transfers[3].bytes, vec![1, 0x2c, 0x2d]);
    assert!(transfers[3].is_data);
    let last = transfers.last().unwrap();
    assert_eq!((last.bytes.clone(), last.wait_ms), (vec![0x29], 100));
    assert_eq!(transfers.len(), 20 + 15);
    let frame = display::frame(&vec![0x1234; WIDTH * HEIGHT]).unwrap();
    assert_eq!(frame.len(), 6);
    assert_eq!(frame[1].bytes, vec![0, 26, 0, 105]);
    assert_eq!(frame[4].bytes, vec![0x2c]);
    assert_eq!(frame[5].bytes.len(), WIDTH * HEIGHT * 2);
    assert_eq!(&frame[5].bytes[..2], &[0x12, 0x34]);
    assert!(display::frame(&vec![0; 5]).is_none());
}

#[test]
fn levels_settle_on_two_equal_readings() {
    let held = [true, false, false, false];
    let free = [false; 4];
    let mut startup = Startup::new(held);
    assert_eq!(startup.read_again(free), Settling::Again);
    assert_eq!(startup.read_again(free), Settling::Settled);
    let mut startup = Startup::new(held);
    for turn in 0..9 {
        let levels = if turn % 2 == 0 { free } else { held };
        assert_eq!(startup.read_again(levels), Settling::Again);
    }
    assert_eq!(startup.read_again(held), Settling::GaveUp);
}

const SECOND: u64 = 1_000_000_000;

#[test]
fn a_panel_shows_messages_for_their_time() {
    let mut panel = PanelState::start([true, false, false, false], None);
    let events = panel.snapshots();
    assert!(events[0].pressed);
    assert_eq!(events[0].count, 0);
    assert!(panel.redraw().is_none());
    let event = panel.command(
        PanelCommand::Message {
            text: "hello".into(),
            ttl_seconds: 2,
        },
        SECOND,
    );
    assert!(event.is_none());
    let frame = panel.redraw().unwrap();
    assert_eq!(frame, render(&panel.screen));
    panel.expire_message(3 * SECOND - 1);
    assert!(panel.redraw().is_none());
    panel.expire_message(3 * SECOND);
    assert_eq!(panel.screen.message, None);
    assert!(panel.redraw().is_some());
    assert!(panel.redraw().is_none());
    panel.command(
        PanelCommand::Message {
            text: "long".into(),
            ttl_seconds: u64::MAX,
        },
        0,
    );
    panel.expire_message(3600 * SECOND);
    assert_eq!(panel.screen.message, None);
}

#[test]
fn a_panel_counts_presses_from_here_and_elsewhere() {
    let mut panel = PanelState::start([false; 4], None);
    let event = panel
        .command(PanelCommand::VirtualPress { button: "X".into() }, 0)
        .unwrap();
    assert_eq!((event.button.as_str(), event.count), ("X", 1));
    assert_eq!(panel.screen.message.as_deref(), Some("REMOTE X"));
    panel.expire_message(SECOND);
    assert_eq!(panel.screen.message, None);
    panel.redraw();
    assert!(panel
        .command(PanelCommand::VirtualPress { button: "Q".into() }, 0)
        .is_none());
    assert!(panel.redraw().is_none());
    assert!(panel.can_take_level(2, true, 5));
    assert!(panel.level(2, true, 5).is_none());
    let event = panel.level(2, true, 5 + 30_000_000).unwrap();
    assert_eq!((event.pressed, event.count), (true, 2));
    assert!(panel.redraw().is_some());
}

#[test]
fn a_panel_repeats_its_buttons_and_looks_up_its_address() {
    let mut panel = PanelState::start([false; 4], None);
    assert!(panel.due_snapshots(SECOND - 1).is_none());
    assert!(panel.due_snapshots(SECOND).is_some());
    assert!(panel.due_snapshots(2 * SECOND - 1).is_none());
    assert!(!panel.address_due(5 * SECOND - 1));
    assert!(panel.address_due(5 * SECOND));
    assert!(panel.address(address(10, 0, 0, 7), 5 * SECOND));
    assert!(!panel.address_due(10 * SECOND - 1));
    assert!(!panel.address(address(10, 0, 0, 7), 10 * SECOND));
    assert!(panel.redraw().is_some());
    panel.command(PanelCommand::Readings(vec![reading(ReadingStatus::Valid)]), 0);
    assert_eq!(panel.screen.sample_number, 1);
    assert!(panel.redraw().is_some());
}

#[test]
fn a_bounce_does_not_count() {
    let mut button = ButtonState::default();
    for (pressed, ms) in [(true, 0), (false, 10), (true, 20), (true, 49), (false, 49)] {
        assert_eq!(button.observe("B", pressed, ms * MS), None);
    }
    assert_eq!(button.count, 0);
    assert!(!button.stable);
}

#[test]
fn a_full_count_only_stops_presses_that_would_count() {
    let mut panel = PanelState::start([false; 4], None);
    panel.screen.buttons[1].count = u64::MAX;
    assert!(panel.can_take_level(1, true, 5));
    assert!(panel.level(1, true, 5).is_none());
    assert!(panel.can_take_level(1, true, 30_000_004));
    assert!(!panel.can_take_level(1, true, 30_000_005));
    assert!(panel.can_take_level(1, false, 30_000_005));
}
