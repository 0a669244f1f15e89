use sevenseg::hal::{PinId, PinOp};
use sevenseg::sevenseg::{SevenSeg, DRIVER_NUM, REFRESH_DIVISOR};
use sevenseg::ReturnCode;

/// The pin edges one frame must drive, written out independently of the
/// library: LATCH low, both bytes MSB-first with a CLOCK pulse per bit,
/// LATCH high.
fn expected_frame(seg: u8, sel: u8) -> Vec<PinOp> {
    let mut v = vec![PinOp::Low(PinId::Latch)];
    for b in [seg, sel] {
        for i in (0..8).rev() {
            v.push(if (b >> i) & 1 == 1 {
                PinOp::High(PinId::Data)
            } else {
                PinOp::Low(PinId::Data)
            });
            v.push(PinOp::High(PinId::Clock));
            v.push(PinOp::Low(PinId::Clock));
        }
    }
    v.push(PinOp::High(PinId::Latch));
    v
}

fn expected_scan(digits: [u8; 4]) -> Vec<PinOp> {
    let mut v = Vec::new();
    for (i, &mask) in [0xF1u8, 0xF2, 0xF4, 0xF8].iter().enumerate() {
        v.extend(expected_frame(digits[i], mask));
    }
    v
}

#[test]
fn driver_number_is_fixed() {
    assert_eq!(DRIVER_NUM, 0xb0000000);
}

#[test]
fn new_display_is_blank_and_idle() {
    let s = SevenSeg::new(0, 16_000_000);
    assert_eq!(s.number, None);
    assert_eq!(s.digits, [0xFF, 0xFF, 0xFF, 0xFF]);
    assert!(!s.enabled);
    assert!(!s.alarm.enabled);
    assert_eq!(s.alarm.pending, None);
    assert!(s.pins.is_empty());
}

#[test]
fn shift_out_emits_bits_msb_first() {
    let mut s = SevenSeg::new(0, 16_000_000);
    s.shift_out(0xA5);
    // 0xA5 = 1010_0101
    let levels: Vec<bool> = [true, false, true, false, false, true, false, true].to_vec();
    let mut expected = Vec::new();
    for bit in levels {
        expected.push(if bit { PinOp::High(PinId::Data) } else { PinOp::Low(PinId::Data) });
        expected.push(PinOp::High(PinId::Clock));
        expected.push(PinOp::Low(PinId::Clock));
    }
    assert_eq!(s.pins, expected);
}

#[test]
fn frame_is_latched_once() {
    let mut s = SevenSeg::new(0, 16_000_000);
    s.write_number_to_position(0xC0, 0xF8);
    assert_eq!(s.pins, expected_frame(0xC0, 0xF8));
    assert_eq!(s.pins.len(), 50);
    assert_eq!(s.pins[0], PinOp::Low(PinId::Latch));
    assert_eq!(s.pins[49], PinOp::High(PinId::Latch));
    let clock_rises = s.pins.iter().filter(|&&p| p == PinOp::High(PinId::Clock)).count();
    assert_eq!(clock_rises, 16);
    // DATA is set immediately before each CLOCK rising edge.
    for i in 0..s.pins.len() {
        if s.pins[i] == PinOp::High(PinId::Clock) {
            assert!(i >= 1);
            let prev = s.pins[i - 1];
            assert!(prev == PinOp::High(PinId::Data) || prev == PinOp::Low(PinId::Data));
        }
    }
}

#[test]
fn enable_without_value_scans_blank() {
    let mut s = SevenSeg::new(1000, 16_000_000);
    let r = s.command(1, 0, 0, 0);
    assert_eq!(r, ReturnCode::Success);
    assert!(s.enabled);
    assert!(s.alarm.enabled);
    assert_eq!(s.alarm.pending, Some(1000 + 16_000_000 / REFRESH_DIVISOR));
    assert!(s.pins.is_empty());
    s.fired();
    assert_eq!(s.pins, expected_scan([0xFF, 0xFF, 0xFF, 0xFF]));
}

#[test]
fn set_value_then_enable_scans_digits() {
    let mut s = SevenSeg::new(0, 16_000_000);
    assert_eq!(s.command(3, 1234, 0, 0), ReturnCode::Success);
    assert_eq!(s.number, Some(1234));
    assert_eq!(s.command(1, 0, 0, 0), ReturnCode::Success);
    assert_eq!(s.digits, [0xF9, 0xA4, 0xB0, 0x99]);
    s.fired();
    assert_eq!(s.pins, expected_scan([0xF9, 0xA4, 0xB0, 0x99]));
}

#[test]
fn zero_shows_one_digit() {
    let mut s = SevenSeg::new(0, 16_000_000);
    s.command(3, 0, 0, 0);
    s.command(1, 0, 0, 0);
    assert_eq!(s.digits, [0xFF, 0xFF, 0xFF, 0xC0]);
    s.fired();
    // Position 2 pairs the blank bitmap with select mask 0xF4.
    assert_eq!(s.pins, expected_scan([0xFF, 0xFF, 0xFF, 0xC0]));
}

#[test]
fn disable_emits_one_blank_frame_then_silence() {
    let mut s = SevenSeg::new(0, 16_000_000);
    s.command(3, 42, 0, 0);
    s.command(1, 0, 0, 0);
    s.fired();
    let mut expected = expected_scan([0xFF, 0xFF, 0x99, 0xA4]);
    assert_eq!(s.pins, expected);
    assert_eq!(s.command(2, 0, 0, 0), ReturnCode::Success);
    expected.extend(expected_frame(0xFF, 0xF1));
    assert_eq!(s.pins, expected);
    assert!(!s.enabled);
    assert!(!s.alarm.enabled);
    assert_eq!(s.alarm.pending, None);
    // Commands other than enable drive nothing further.
    s.command(0, 0, 0, 0);
    s.command(3, 7, 0, 0);
    s.command(2, 0, 0, 0);
    s.command(99, 0, 0, 0);
    assert_eq!(s.pins, expected);
    assert!(!s.alarm.enabled);
}

#[test]
fn probe_display_has_no_effect() {
    let mut s = SevenSeg::new(5, 32768);
    let before = (s.number, s.digits, s.enabled, s.alarm, s.pins.len());
    assert_eq!(s.command(0, 11, 22, 3), ReturnCode::Success);
    assert_eq!(before, (s.number, s.digits, s.enabled, s.alarm, s.pins.len()));
}

#[test]
fn unknown_display_command_is_not_supported() {
    let mut s = SevenSeg::new(0, 32768);
    assert_eq!(s.command(4, 0, 0, 0), ReturnCode::NotSupported);
    assert_eq!(s.command(usize::MAX, 0, 0, 0), ReturnCode::NotSupported);
    assert_eq!(s.number, None);
    assert!(s.pins.is_empty());
}

#[test]
fn set_value_truncates_to_16_bits() {
    let mut s = SevenSeg::new(0, 32768);
    assert_eq!(s.command(3, 70000, 0, 0), ReturnCode::Success);
    assert_eq!(s.number, Some((70000 % 65536) as u16));
}

#[test]
fn set_value_while_enabled_recomputes_digits() {
    let mut s = SevenSeg::new(0, 16_000_000);
    s.command(1, 0, 0, 0);
    assert_eq!(s.digits, [0xFF, 0xFF, 0xFF, 0xFF]);
    s.command(3, 5, 0, 0);
    assert_eq!(s.digits, [0xFF, 0xFF, 0xFF, 0x92]);
}

#[test]
fn set_value_while_disabled_defers_recompute() {
    let mut s = SevenSeg::new(0, 16_000_000);
    s.command(3, 8, 0, 0);
    assert_eq!(s.digits, [0xFF, 0xFF, 0xFF, 0xFF]);
    s.command(1, 0, 0, 0);
    assert_eq!(s.digits, [0xFF, 0xFF, 0xFF, 0x80]);
}

#[test]
fn refresh_reschedules_one_period_ahead() {
    let mut s = SevenSeg::new(100, 32768);
    s.command(1, 0, 0, 0);
    // 32768 / 8000 = 4 ticks per refresh.
    assert_eq!(s.alarm.pending, Some(104));
    s.alarm.advance(104);
    s.fired();
    assert_eq!(s.alarm.pending, Some(108));
    assert!(s.alarm.enabled);
}

#[test]
fn schedule_wraps_around() {
    let mut s = SevenSeg::new(u32::MAX - 100, 16_000_000);
    s.command(1, 0, 0, 0);
    // period 2000; the absolute tick wraps past zero.
    assert_eq!(s.alarm.pending, Some(1899));
}

#[test]
fn disable_when_disabled_changes_nothing() {
    let mut s = SevenSeg::new(0, 16_000_000);
    assert_eq!(s.command(2, 0, 0, 0), ReturnCode::Success);
    assert!(s.pins.is_empty());
    s.command(1, 0, 0, 0);
    s.command(2, 0, 0, 0);
    let after_one = s.pins.len();
    assert_eq!(after_one, 50);
    assert_eq!(s.command(2, 0, 0, 0), ReturnCode::Success);
    assert_eq!(s.pins.len(), after_one);
}
