//! The multiplexed 4-digit seven-segment display driver.
//!
//! The driver owns the display state (the value to show, the four
//! precomputed segment bitmaps, the enabled flag) and the model of the
//! host alarm; every pin edge it would drive is appended to `pins`.
//! Spec-level transition functions state exactly what each entry point
//! does, and every exec method is proved against them.

use vstd::prelude::*;

use crate::encoder::{encode, encode_digits, BLANK};
use crate::hal::{AlarmModel, PinId, PinOp};
use crate::ReturnCode;

verus! {

/// The driver's number in the host kernel's dispatch table.
pub const DRIVER_NUM: usize = 0xb0000000;

/// The refresh period is `frequency / REFRESH_DIVISOR` ticks: an 8 kHz
/// tick, the design's fixed brightness setting.
pub const REFRESH_DIVISOR: u32 = 8000;

/// Digit-select mask for a physical digit position (active-low, one bit
/// per position, position 0 leftmost).
pub open spec fn select_mask(i: int) -> u8 {
    if i == 0 {
        0xF1
    } else if i == 1 {
        0xF2
    } else if i == 2 {
        0xF4
    } else {
        0xF8
    }
}

/// Exec lookup of the digit-select mask for a position.
pub fn select_mask_at(i: usize) -> (r: u8)
    ensures
        r == select_mask(i as int),
{
    if i == 0 {
        0xF1
    } else if i == 1 {
        0xF2
    } else if i == 2 {
        0xF4
    } else {
        0xF8
    }
}

/// The DATA-line operation for bit `i` of `v`.
pub open spec fn data_op(v: u8, i: u8) -> PinOp {
    if (v >> i) & 1 == 1 {
        PinOp::High(PinId::Data)
    } else {
        PinOp::Low(PinId::Data)
    }
}

/// The three pin edges that shift out bit `i` of `v`: present the bit on
/// DATA, then pulse CLOCK high and low.
pub open spec fn bit_ops(v: u8, i: u8) -> Seq<PinOp> {
    seq![data_op(v, i), PinOp::High(PinId::Clock), PinOp::Low(PinId::Clock)]
}

/// The pin edges after the first `k` iterations of shifting `v` out
/// MSB-first: bits 7 down to `8 - k`.
pub open spec fn shift_ops_upto(v: u8, k: nat) -> Seq<PinOp>
    decreases k,
{
    if k == 0 {
        Seq::empty()
    } else {
        shift_ops_upto(v, (k - 1) as nat) + bit_ops(v, (8 - k) as u8)
    }
}

/// All 24 pin edges that shift the byte `v` out MSB-first.
pub open spec fn shift_ops(v: u8) -> Seq<PinOp> {
    shift_ops_upto(v, 8)
}

/// One frame: pull LATCH low, shift the segment byte, shift the select
/// mask, pull LATCH high. The rising LATCH edge transfers both bytes
/// into the shift register's output stage.
pub open spec fn frame_ops(seg: u8, sel: u8) -> Seq<PinOp> {
    seq![PinOp::Low(PinId::Latch)] + shift_ops(seg) + shift_ops(sel) + seq![
        PinOp::High(PinId::Latch),
    ]
}

/// The frames of the first `k` digit positions of one full scan.
pub open spec fn scan_ops_upto(digits: Seq<u8>, k: nat) -> Seq<PinOp>
    decreases k,
{
    if k == 0 {
        Seq::empty()
    } else {
        scan_ops_upto(digits, (k - 1) as nat) + frame_ops(
            digits[k - 1],
            select_mask(k - 1),
        )
    }
}

/// One full scan: all four digit positions, leftmost first.
pub open spec fn scan_ops(digits: Seq<u8>) -> Seq<PinOp> {
    scan_ops_upto(digits, 4)
}

/// The absolute tick of the next refresh: the current tick plus the
/// refresh period, with wrap-around.
pub open spec fn next_fire(a: AlarmModel) -> u32 {
    vstd::wrapping::u32_specs::wrapping_add(a.now, a.freq / REFRESH_DIVISOR)
}

/// The abstract state of the display driver: its fields as mathematical
/// values, with the full trace of pin edges driven so far.
#[verifier::ext_equal]
pub struct SegView {
    pub number: Option<u16>,
    pub digits: Seq<u8>,
    pub enabled: bool,
    pub pins: Seq<PinOp>,
    pub alarm: AlarmModel,
}

/// The display driver.
pub struct SevenSeg {
    pub number: Option<u16>,
    pub digits: [u8; 4],
    pub enabled: bool,
    pub pins: Vec<PinOp>,
    pub alarm: AlarmModel,
}

impl View for SevenSeg {
    type V = SegView;

    open spec fn view(&self) -> SegView {
        SegView {
            number: self.number,
            digits: self.digits@,
            enabled: self.enabled,
            pins: self.pins@,
            alarm: self.alarm,
        }
    }
}

/// The state of a freshly constructed display: no value, all positions
/// blank, disabled, nothing driven, alarm idle.
pub open spec fn initial_seg(now: u32, freq: u32) -> SegView {
    SegView {
        number: None,
        digits: seq![BLANK, BLANK, BLANK, BLANK],
        enabled: false,
        pins: Seq::empty(),
        alarm: AlarmModel { now, freq, enabled: false, pending: None },
    }
}

/// Recompute the digit bitmaps from the stored value; with no value set
/// the bitmaps are left as they are (a fresh display stays blank).
pub open spec fn seg_recompute(s: SegView) -> SegView {
    match s.number {
        Some(n) => SegView { digits: encode(n), ..s },
        None => s,
    }
}

/// The enable transition: recompute the bitmaps, schedule the next
/// refresh one period from now, and enable the alarm.
pub open spec fn seg_enable(s: SegView) -> SegView {
    let r = seg_recompute(s);
    SegView {
        enabled: true,
        alarm: AlarmModel { enabled: true, pending: Some(next_fire(s.alarm)), ..s.alarm },
        ..r
    }
}

/// The disable transition: cancel the pending alarm and disable it; if
/// the display was enabled, write one all-blank frame on position 0.
/// Disabling an already disabled display changes nothing it shows.
pub open spec fn seg_disable(s: SegView) -> SegView {
    SegView {
        enabled: false,
        alarm: AlarmModel { enabled: false, pending: None, ..s.alarm },
        pins: if s.enabled {
            s.pins + frame_ops(BLANK, select_mask(0))
        } else {
            s.pins
        },
        ..s
    }
}

/// The set-value transition: store the value; while enabled, recompute
/// the bitmaps at once.
pub open spec fn seg_set_value(s: SegView, n: u16) -> SegView {
    let r = SegView { number: Some(n), ..s };
    if s.enabled {
        seg_recompute(r)
    } else {
        r
    }
}

/// The refresh transition, taken when the alarm fires: drive one full
/// scan of the four digits and reschedule one period from now.
pub open spec fn seg_fired(s: SegView) -> SegView {
    SegView {
        pins: s.pins + scan_ops(s.digits),
        alarm: AlarmModel { pending: Some(next_fire(s.alarm)), ..s.alarm },
        ..s
    }
}

/// The system-call dispatch of the display driver: command 0 probes,
/// 1 enables, 2 disables, 3 stores `data1` truncated to 16 bits; any
/// other command is unknown and changes nothing.
pub open spec fn seg_command(s: SegView, command_num: usize, data1: usize) -> (SegView, ReturnCode) {
    if command_num == 0 {
        (s, ReturnCode::Success)
    } else if command_num == 1 {
        (seg_enable(s), ReturnCode::Success)
    } else if command_num == 2 {
        (seg_disable(s), ReturnCode::Success)
    } else if command_num == 3 {
        (seg_set_value(s, (data1 % 0x10000) as u16), ReturnCode::Success)
    } else {
        (s, ReturnCode::NotSupported)
    }
}

/// One way the host can enter the display driver: a system call or the
/// alarm firing.
pub enum SegEvent {
    Command { command_num: usize, data1: usize },
    Fired,
}

/// Whether an event is the enable command.
pub open spec fn is_enable(ev: SegEvent) -> bool {
    match ev {
        SegEvent::Command { command_num, .. } => command_num == 1,
        SegEvent::Fired => false,
    }
}

/// One driver entry. The host delivers `Fired` only while the alarm is
/// enabled; a firing of a disabled alarm does not happen and is modelled
/// as no entry at all.
pub open spec fn seg_step(s: SegView, ev: SegEvent) -> SegView {
    match ev {
        SegEvent::Command { command_num, data1 } => seg_command(s, command_num, data1).0,
        SegEvent::Fired => if s.alarm.enabled {
            seg_fired(s)
        } else {
            s
        },
    }
}

/// The state after a whole sequence of driver entries.
pub open spec fn seg_run(s: SegView, evs: Seq<SegEvent>) -> SegView
    decreases evs.len(),
{
    if evs.len() == 0 {
        s
    } else {
        seg_run(seg_step(s, evs[0]), evs.drop_first())
    }
}

impl SevenSeg {
    /// Construct the driver. The host configures the three lines as
    /// outputs at this point and hands over the alarm's current tick and
    /// frequency.
    pub fn new(now: u32, freq: u32) -> (s: SevenSeg)
        ensures
            s@ == initial_seg(now, freq),
    {
        let s = SevenSeg {
            number: None,
            digits: [BLANK, BLANK, BLANK, BLANK],
            enabled: false,
            pins: Vec::new(),
            alarm: AlarmModel { now, freq, enabled: false, pending: None },
        };
        proof {
            assert(s@ =~= initial_seg(now, freq));
        }
        s
    }

    /// Shift the byte `value` out MSB-first: for each bit, present it on
    /// DATA and pulse CLOCK. The latch is not touched.
    pub fn shift_out(&mut self, value: u8)
        ensures
            final(self)@ == (SegView { pins: old(self)@.pins + shift_ops(value), ..old(self)@ }),
    {
        let mut k: usize = 0;
        while k < 8
            invariant
                k <= 8,
                self@ == (SegView {
                    pins: old(self)@.pins + shift_ops_upto(value, k as nat),
                    ..old(self)@
                }),
            decreases 8 - k,
        {
            let ghost prev = self@;
            let i: u8 = 7 - (k as u8);
            if ((value >> i) & 0x01) == 1 {
                self.pins.push(PinOp::High(PinId::Data));
            } else {
                self.pins.push(PinOp::Low(PinId::Data));
            }
            self.pins.push(PinOp::High(PinId::Clock));
            self.pins.push(PinOp::Low(PinId::Clock));
            k = k + 1;
            proof {
                assert(self@.pins =~= prev.pins + bit_ops(value, i));
                assert(shift_ops_upto(value, k as nat) == shift_ops_upto(value, (k - 1) as nat)
                    + bit_ops(value, (8 - k) as u8));
                assert(self@.pins =~= old(self)@.pins + shift_ops_upto(value, k as nat));
                assert(self@ =~= (SegView {
                    pins: old(self)@.pins + shift_ops_upto(value, k as nat),
                    ..old(self)@
                }));
            }
        }
        proof {
            assert(self@ =~= (SegView { pins: old(self)@.pins + shift_ops(value), ..old(self)@ }));
        }
    }

    /// Write one frame: segment byte `number`, select mask `position`,
    /// framed by a falling then a rising LATCH edge.
    pub fn write_number_to_position(&mut self, number: u8, position: u8)
        ensures
            final(self)@ == (SegView {
                pins: old(self)@.pins + frame_ops(number, position),
                ..old(self)@
            }),
    {
        self.pins.push(PinOp::Low(PinId::Latch));
        self.shift_out(number);
        self.shift_out(position);
        self.pins.push(PinOp::High(PinId::Latch));
        proof {
            assert(self@.pins =~= old(self)@.pins + frame_ops(number, position));
            assert(self@ =~= (SegView {
                pins: old(self)@.pins + frame_ops(number, position),
                ..old(self)@
            }));
        }
    }

    /// Recompute the digit bitmaps from the stored value, as the enable
    /// command does. With no value stored the bitmaps stay as they are.
    pub fn turn_display_on(&mut self)
        ensures
            final(self)@ == seg_recompute(old(self)@),
    {
        match self.number {
            None => {},
            Some(x) => {
                self.digits = encode_digits(x);
                proof {
                    assert(self@ =~= seg_recompute(old(self)@));
                }
            },
        }
    }

    /// Write one all-blank frame on position 0, as the disable command
    /// does on an enabled display.
    pub fn turn_display_off(&mut self)
        ensures
            final(self)@ == (SegView {
                pins: old(self)@.pins + frame_ops(BLANK, select_mask(0)),
                ..old(self)@
            }),
    {
        self.write_number_to_position(BLANK, 0xF1);
    }

    /// Drive one full scan: the frame of every digit position, leftmost
    /// first.
    pub fn display_digits(&mut self)
        ensures
            final(self)@ == (SegView {
                pins: old(self)@.pins + scan_ops(old(self)@.digits),
                ..old(self)@
            }),
    {
        let mut i: usize = 0;
        while i < 4
            invariant
                i <= 4,
                self@ == (SegView {
                    pins: old(self)@.pins + scan_ops_upto(old(self)@.digits, i as nat),
                    ..old(self)@
                }),
            decreases 4 - i,
        {
            let ghost prev = self@;
            let seg: u8 = self.digits[i];
            let sel: u8 = select_mask_at(i);
            self.write_number_to_position(seg, sel);
            i = i + 1;
            proof {
                assert(scan_ops_upto(old(self)@.digits, i as nat) == scan_ops_upto(
                    old(self)@.digits,
                    (i - 1) as nat,
                ) + frame_ops(old(self)@.digits[i - 1], select_mask(i - 1)));
                assert(self@.pins =~= old(self)@.pins + scan_ops_upto(old(self)@.digits, i as nat));
                assert(self@ =~= (SegView {
                    pins: old(self)@.pins + scan_ops_upto(old(self)@.digits, i as nat),
                    ..old(self)@
                }));
            }
        }
        proof {
            assert(self@ =~= (SegView {
                pins: old(self)@.pins + scan_ops(old(self)@.digits),
                ..old(self)@
            }));
        }
    }

    /// The display driver's system-call entry: dispatch a numeric
    /// command. Command 0 probes and has no effect; 1 enables; 2
    /// disables; 3 stores `data1 mod 2^16` as the value to display; any
    /// other number is unknown, changes nothing, and returns
    /// `NotSupported`.
    pub fn command(&mut self, command_num: usize, data1: usize, _data2: usize, _app_id: usize) -> (r:
        ReturnCode)
        ensures
            final(self)@ == seg_command(old(self)@, command_num, data1).0,
            r == seg_command(old(self)@, command_num, data1).1,
    {
        if command_num == 0 {
            ReturnCode::Success
        } else if command_num == 1 {
            self.turn_display_on();
            let at: u32 = self.alarm.now.wrapping_add(self.alarm.freq / REFRESH_DIVISOR);
            self.alarm.pending = Some(at);
            self.alarm.enabled = true;
            self.enabled = true;
            proof {
                assert(self@ =~= seg_enable(old(self)@));
            }
            ReturnCode::Success
        } else if command_num == 2 {
            self.alarm.enabled = false;
            self.alarm.pending = None;
            if self.enabled {
                self.turn_display_off();
                self.enabled = false;
            }
            proof {
                assert(self@ =~= seg_disable(old(self)@));
            }
            ReturnCode::Success
        } else if command_num == 3 {
            let n: u16 = (data1 % 0x10000) as u16;
            self.number = Some(n);
            if self.enabled {
                self.turn_display_on();
            }
            proof {
                assert(self@ =~= seg_set_value(old(self)@, (data1 % 0x10000) as u16));
            }
            ReturnCode::Success
        } else {
            ReturnCode::NotSupported
        }
    }

    /// The alarm-fired entry: drive one full scan and reschedule one
    /// period ahead. The host delivers this only while the alarm is
    /// enabled, which is only while the display is enabled.
    pub fn fired(&mut self)
        requires
            old(self)@.enabled,
        ensures
            final(self)@ == seg_fired(old(self)@),
    {
        self.display_digits();
        let at: u32 = self.alarm.now.wrapping_add(self.alarm.freq / REFRESH_DIVISOR);
        self.alarm.pending = Some(at);
        proof {
            assert(self@ =~= seg_fired(old(self)@));
        }
    }
}

} // verus!
