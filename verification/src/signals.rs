//! The scanner's fixed command catalogue.
//!
//! The handshake consists of 23 command signals, each a 7-byte frame, written
//! to the device in this exact order. The order is significant: it is the
//! device's command sequence, not a set. Every frame opens with the same
//! 4-byte tag and closes with 3 signal-specific bytes.

use vstd::prelude::*;

verus! {

/// How many command signals the handshake issues.
pub const SIGNAL_COUNT: usize = 23;

/// Length in bytes of one command signal frame.
pub const SIGNAL_LEN: usize = 7;

/// The fixed outbound address the command signals are written to (distinct
/// from the resolved inbound endpoint).
pub const SIGNAL_OUTPUT_ADDRESS: u8 = 0x04;

/// The last three bytes of the signal at a catalogue position.
pub open spec fn signal_tail(i: int) -> (u8, u8, u8) {
    if i == 0 {
        (0x01, 0x20, 0x3f)
    } else if i == 1 {
        (0x01, 0x58, 0x3f)
    } else if i == 2 {
        (0x01, 0x21, 0x09)
    } else if i == 3 {
        (0x01, 0x57, 0x09)
    } else if i == 4 {
        (0x01, 0x22, 0x03)
    } else if i == 5 {
        (0x01, 0x56, 0x03)
    } else if i == 6 {
        (0x01, 0x23, 0x01)
    } else if i == 7 {
        (0x01, 0x55, 0x01)
    } else if i == 8 {
        (0x01, 0x24, 0x01)
    } else if i == 9 {
        (0x01, 0x54, 0x01)
    } else if i == 10 {
        (0x01, 0x16, 0x3e)
    } else if i == 11 {
        (0x01, 0x09, 0x0b)
    } else if i == 12 {
        (0x01, 0x14, 0x03)
    } else if i == 13 {
        (0x01, 0x15, 0x00)
    } else if i == 14 {
        (0x01, 0x02, 0x0f)
    } else if i == 15 {
        (0x01, 0x10, 0x00)
    } else if i == 16 {
        (0x01, 0x11, 0x38)
    } else if i == 17 {
        (0x01, 0x12, 0x00)
    } else if i == 18 {
        (0x01, 0x13, 0x71)
    } else if i == 19 {
        (0x01, 0x03, 0x80)
    } else if i == 20 {
        (0x00, 0x02, 0x80)
    } else if i == 21 {
        (0x01, 0x02, 0x2f)
    } else {
        (0x06, 0x00, 0xfe)
    }
}

/// The 7-byte command signal at a catalogue position: the fixed tag
/// `45 47 49 53`, then the three signal-specific bytes.
pub open spec fn spec_signal(i: int) -> Seq<u8> {
    seq![0x45u8, 0x47u8, 0x49u8, 0x53u8, signal_tail(i).0, signal_tail(i).1, signal_tail(i).2]
}

/// Build the command signal at a catalogue position.
pub fn signal_frame(i: usize) -> (r: Vec<u8>)
    requires
        i < SIGNAL_COUNT,
    ensures
        r@ == spec_signal(i as int),
        r@.len() == SIGNAL_LEN,
{
    let (a, b, c): (u8, u8, u8) = match i {
        0 => (0x01, 0x20, 0x3f),
        1 => (0x01, 0x58, 0x3f),
        2 => (0x01, 0x21, 0x09),
        3 => (0x01, 0x57, 0x09),
        4 => (0x01, 0x22, 0x03),
        5 => (0x01, 0x56, 0x03),
        6 => (0x01, 0x23, 0x01),
        7 => (0x01, 0x55, 0x01),
        8 => (0x01, 0x24, 0x01),
        9 => (0x01, 0x54, 0x01),
        10 => (0x01, 0x16, 0x3e),
        11 => (0x01, 0x09, 0x0b),
        12 => (0x01, 0x14, 0x03),
        13 => (0x01, 0x15, 0x00),
        14 => (0x01, 0x02, 0x0f),
        15 => (0x01, 0x10, 0x00),
        16 => (0x01, 0x11, 0x38),
        17 => (0x01, 0x12, 0x00),
        18 => (0x01, 0x13, 0x71),
        19 => (0x01, 0x03, 0x80),
        20 => (0x00, 0x02, 0x80),
        21 => (0x01, 0x02, 0x2f),
        _ => (0x06, 0x00, 0xfe),
    };
    assert((a, b, c) == signal_tail(i as int));
    let mut r: Vec<u8> = Vec::new();
    r.push(0x45);
    r.push(0x47);
    r.push(0x49);
    r.push(0x53);
    r.push(a);
    r.push(b);
    r.push(c);
    assert(r@ =~= spec_signal(i as int));
    r
}

} // verus!
