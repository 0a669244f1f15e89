//! The digit encoder: a pure function from a 16-bit value to the four
//! segment bitmaps of the multiplexed display, with leading zeros
//! rendered as blank.

use vstd::prelude::*;

verus! {

/// The segment bitmap that leaves every segment dark.
pub const BLANK: u8 = 0xFF;

/// Segment bitmap for a decimal digit on a common-anode display
/// (active-low segments, bit order dp,g,f,e,d,c,b,a from MSB to LSB).
/// Any value outside 0..=9 stands for a blank position.
pub open spec fn glyph(d: int) -> u8 {
    if d == 0 {
        0xC0
    } else if d == 1 {
        0xF9
    } else if d == 2 {
        0xA4
    } else if d == 3 {
        0xB0
    } else if d == 4 {
        0x99
    } else if d == 5 {
        0x92
    } else if d == 6 {
        0x82
    } else if d == 7 {
        0xF8
    } else if d == 8 {
        0x80
    } else if d == 9 {
        0x90
    } else {
        BLANK
    }
}

/// The four segment bitmaps for `n`, most significant position first.
/// A position is blank unless `n` has at least that many decimal digits;
/// the least significant position is always rendered.
pub open spec fn encode(n: u16) -> Seq<u8> {
    seq![
        if n >= 1000 { glyph((n as int / 1000) % 10) } else { BLANK },
        if n >= 100 { glyph((n as int / 100) % 10) } else { BLANK },
        if n >= 10 { glyph((n as int / 10) % 10) } else { BLANK },
        glyph(n as int % 10),
    ]
}

/// Look up the segment bitmap for a digit; any value above 9 renders blank.
pub fn digit_glyph(d: u8) -> (r: u8)
    ensures
        r == glyph(d as int),
{
    if d == 0 {
        0xC0
    } else if d == 1 {
        0xF9
    } else if d == 2 {
        0xA4
    } else if d == 3 {
        0xB0
    } else if d == 4 {
        0x99
    } else if d == 5 {
        0x92
    } else if d == 6 {
        0x82
    } else if d == 7 {
        0xF8
    } else if d == 8 {
        0x80
    } else if d == 9 {
        0x90
    } else {
        BLANK
    }
}

/// Encode `n` as four segment bitmaps, most significant position first,
/// with leading zeros suppressed as blanks.
pub fn encode_digits(n: u16) -> (r: [u8; 4])
    ensures
        r@ == encode(n),
{
    let d0: u8 = if n >= 1000 {
        digit_glyph(((n / 1000) % 10) as u8)
    } else {
        BLANK
    };
    let d1: u8 = if n >= 100 {
        digit_glyph(((n / 100) % 10) as u8)
    } else {
        BLANK
    };
    let d2: u8 = if n >= 10 {
        digit_glyph(((n / 10) % 10) as u8)
    } else {
        BLANK
    };
    let d3: u8 = digit_glyph((n % 10) as u8);
    let r: [u8; 4] = [d0, d1, d2, d3];
    proof {
        assert(r@ =~= encode(n));
    }
    r
}

} // verus!
