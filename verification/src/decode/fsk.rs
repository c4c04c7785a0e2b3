//! Character framing of the frequency shift keyed teleprinter.
//!
//! A frame is a start element, the data bits with the least significant one
//! first, an optional parity bit and the stop element. What is decided once a
//! frame is complete lives here: whether its parity holds, which code it
//! carries and what character that code prints.

use vstd::prelude::*;
use crate::config::settings::{RttyAlphabet, RttyParity};
use crate::decode::baudot::{ascii_prints, decode_ascii, ita2_step, Ita2};

verus! {

/// Number of one bits in a value.
pub open spec fn ones(n: nat) -> nat
    decreases n,
{
    if n == 0 {
        0
    } else {
        n % 2 + ones(n / 2)
    }
}

/// Number of elements after the start element and before the stop element:
/// the data bits and, unless parity is off, the parity bit.
pub open spec fn frame_len(data_bits: nat, parity: RttyParity) -> nat {
    data_bits + if parity == RttyParity::Absent { 0nat } else { 1nat }
}

/// The parity bit a frame must carry over data whose count of ones is odd or
/// not: even parity makes the total even, odd parity makes it odd, mark and
/// space fix the bit.
pub open spec fn expected_parity(parity: RttyParity, ones_odd: bool, bit: bool) -> bool {
    match parity {
        RttyParity::Even => ones_odd,
        RttyParity::Odd => !ones_odd,
        RttyParity::Mark => true,
        RttyParity::Space => false,
        RttyParity::Absent => bit,
    }
}

/// The data code a received frame carries, or None when its parity bit is
/// wrong. Without parity every frame is taken as it stands.
pub open spec fn frame_code(bits: u16, data_bits: nat, parity: RttyParity) -> Option<u16> {
    if parity == RttyParity::Absent {
        Some(bits)
    } else {
        let bit = (bits as nat / pow2(data_bits)) % 2 == 1;
        let code = bits as nat % pow2(data_bits);
        if bit == expected_parity(parity, ones(code) % 2 == 1, bit) {
            Some(code as u16)
        } else {
            None
        }
    }
}

/// Two to the power of `n`.
pub open spec fn pow2(n: nat) -> nat
    decreases n,
{
    if n == 0 {
        1
    } else {
        2 * pow2((n - 1) as nat)
    }
}

/// Number of elements the receiver collects for a frame.
pub fn frame_elements(data_bits: usize, parity: RttyParity) -> (r: usize)
    requires
        data_bits < usize::MAX,
    ensures
        r == frame_len(data_bits as nat, parity),
{
    if parity == RttyParity::Absent {
        data_bits
    } else {
        data_bits + 1
    }
}

proof fn lemma_pow2_bounds(n: nat)
    requires
        n <= 8,
    ensures
        1 <= pow2(n) <= 256,
{
    reveal_with_fuel(pow2, 9);
    assert(n == 0 || n == 1 || n == 2 || n == 3 || n == 4 || n == 5 || n == 6 || n == 7 || n == 8);
}

/// Whether the count of ones in `v` is odd.
fn ones_odd(v: u16) -> (r: bool)
    ensures
        r == (ones(v as nat) % 2 == 1),
{
    let mut rest: u16 = v;
    let mut odd: bool = false;
    while rest > 0
        invariant
            (ones(v as nat) % 2 == 1) == (odd != (ones(rest as nat) % 2 == 1)),
        decreases rest,
    {
        let low = rest % 2 == 1;
        assert(ones(rest as nat) == rest as nat % 2 + ones(rest as nat / 2));
        odd = odd != low;
        rest = rest / 2;
    }
    odd
}

/// Checks the parity of a complete frame and returns the data code, or None
/// when the parity bit is wrong.
pub fn check_parity(bits: u16, data_bits: usize, parity: RttyParity) -> (r: Option<u16>)
    requires
        5 <= data_bits <= 8,
    ensures
        r == frame_code(bits, data_bits as nat, parity),
{
    if parity == RttyParity::Absent {
        return Some(bits);
    }
    proof {
        lemma_pow2_bounds(data_bits as nat);
    }
    let mut scale: u16 = 1;
    let mut i: usize = 0;
    while i < data_bits
        invariant
            i <= data_bits <= 8,
            scale as nat == pow2(i as nat),
            scale <= 256,
        decreases data_bits - i,
    {
        proof {
            lemma_pow2_bounds((i + 1) as nat);
        }
        scale = scale * 2;
        i += 1;
    }
    let bit = (bits / scale) % 2 == 1;
    let code = bits % scale;
    let expected = match parity {
        RttyParity::Even => ones_odd(code),
        RttyParity::Odd => !ones_odd(code),
        RttyParity::Mark => true,
        RttyParity::Space => false,
        RttyParity::Absent => bit,
    };
    if bit == expected {
        Some(code)
    } else {
        None
    }
}

/// What a complete frame with a valid stop element leaves behind.
#[derive(Debug, Clone, Copy, PartialEq, Eq, Structural)]
pub enum Frame {
    /// The parity bit was wrong; the frame is dropped and counted.
    ParityError,
    /// The code carries no character: a shift, or an empty position.
    Empty,
    /// A character was received.
    Received(char),
}

/// The character a code decodes to under an alphabet, and the letters or
/// figures case after it for the five bit alphabet.
pub open spec fn alphabet_step(
    alphabet: RttyAlphabet,
    figures: bool,
    unshift: bool,
    code: u16,
    data_bits: nat,
) -> (bool, Option<char>) {
    match alphabet {
        RttyAlphabet::Baudot => ita2_step(figures, unshift, code as u8),
        RttyAlphabet::Ascii => {
            let v: u8 = if data_bits >= 8 { code as u8 } else { ((code as u8) as nat % 128) as u8 };
            (figures, if ascii_prints(v) { Some(v as char) } else { None })
        },
    }
}

/// Accepts a frame whose stop element read as mark: checks its parity and
/// decodes the code it carries. The letters and figures case only moves on a
/// frame that passed the parity check.
pub fn accept_frame(
    alpha: &mut Ita2,
    alphabet: RttyAlphabet,
    bits: u16,
    data_bits: usize,
    parity: RttyParity,
) -> (r: Frame)
    requires
        5 <= data_bits <= 8,
    ensures
        final(alpha).unshifts() == old(alpha).unshifts(),
        match frame_code(bits, data_bits as nat, parity) {
            None => r == Frame::ParityError && final(alpha).figures() == old(alpha).figures(),
            Some(code) => {
                let (f, out) = alphabet_step(
                    alphabet,
                    old(alpha).figures(),
                    old(alpha).unshifts(),
                    code,
                    data_bits as nat,
                );
                &&& final(alpha).figures() == f
                &&& r == match out {
                    Some(ch) => Frame::Received(ch),
                    None => Frame::Empty,
                }
            },
        },
{
    let code = match check_parity(bits, data_bits, parity) {
        Some(c) => c,
        None => return Frame::ParityError,
    };
    let low = code as u8;
    let decoded = match alphabet {
        RttyAlphabet::Baudot => alpha.decode(low),
        RttyAlphabet::Ascii => decode_ascii(low, data_bits),
    };
    match decoded {
        Some(ch) => Frame::Received(ch),
        None => Frame::Empty,
    }
}

/// Whether a received character goes into the text. A carriage return on its
/// own would overwrite the line in a text view that honours it, so only the
/// line feed is kept.
pub fn prints(ch: char) -> (r: bool)
    ensures
        r == (ch != '\r'),
{
    ch != '\r'
}

} // verus!
