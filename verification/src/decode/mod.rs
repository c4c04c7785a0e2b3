//! Decoders: alphabets, framing and the identifiers the interface reports.

pub mod baudot;
pub mod fsk;
pub mod log;
pub mod morse;
pub mod psk;
pub mod varicode;

use vstd::prelude::*;

verus! {

#[derive(Debug, Clone, Copy, PartialEq, Eq, Structural)]
pub enum Mode {
    Unknown,
    Cw,
    Rtty,
    Navtex,
    Psk31,
}

impl Mode {
    pub open spec fn spec_as_str(self) -> Seq<char> {
        match self {
            Mode::Unknown => "----"@,
            Mode::Cw => "CW"@,
            Mode::Rtty => "RTTY"@,
            Mode::Navtex => "NAVTEX"@,
            Mode::Psk31 => "PSK31"@,
        }
    }

    pub open spec fn spec_key(self) -> Seq<char> {
        match self {
            Mode::Unknown => "mode.none"@,
            Mode::Cw => "mode.cw"@,
            Mode::Rtty => "mode.rtty"@,
            Mode::Navtex => "mode.navtex"@,
            Mode::Psk31 => "mode.psk31"@,
        }
    }

    /// Short form, which is what goes into the transcript file.
    pub fn as_str(self) -> (r: &'static str)
        ensures
            r@ == self.spec_as_str(),
    {
        match self {
            Mode::Unknown => "----",
            Mode::Cw => "CW",
            Mode::Rtty => "RTTY",
            Mode::Navtex => "NAVTEX",
            Mode::Psk31 => "PSK31",
        }
    }

    /// Localization key. The short form returned by as_str is what goes into the
    /// transcript file, which must stay stable and in one language whatever the
    /// interface is set to.
    pub fn key(self) -> (r: &'static str)
        ensures
            r@ == self.spec_key(),
    {
        match self {
            Mode::Unknown => "mode.none",
            Mode::Cw => "mode.cw",
            Mode::Rtty => "mode.rtty",
            Mode::Navtex => "mode.navtex",
            Mode::Psk31 => "mode.psk31",
        }
    }
}


/// Offset basis of the 64 bit FNV-1a hash.
pub const FNV_OFFSET: u64 = 0xcbf2_9ce4_8422_2325;

/// Prime of the 64 bit FNV-1a hash.
pub const FNV_PRIME: u64 = 0x0000_0100_0000_01b3;

/// FNV-1a over whole words: each value is folded in with an exclusive or
/// and a wrapping multiplication by the prime.
pub open spec fn fingerprint_of(vals: Seq<u64>) -> u64
    decreases vals.len(),
{
    if vals.len() == 0 {
        FNV_OFFSET
    } else {
        (fingerprint_of(vals.drop_last()) ^ vals.last()).wrapping_mul(FNV_PRIME)
    }
}

/// Fingerprint of everything that forces a demodulator rebuild: the rate, the
/// arrangement of the input, the keying speed range and the teleprinter frame.
///
/// The keying detector plans its analysis window from the requested bandwidth
/// and from the working speed, so both belong here. Values applied per block,
/// such as the tone frequency, the inversion flag or the parity mode, do not,
/// and neither does the channel count: opening and closing channels is the job
/// of the allocator, not of a rebuild. Fractional settings enter by their bit
/// patterns.
pub fn decoder_signature(
    rate: u32,
    complex: bool,
    wpm_min_bits: u32,
    wpm_max_bits: u32,
    baud_bits: u32,
    data_bits: u32,
    stop_bits_bits: u32,
    alphabet: crate::config::settings::RttyAlphabet,
) -> (r: u64)
    ensures
        r == fingerprint_of(
            seq![
                rate as u64,
                if complex { 1u64 } else { 0u64 },
                wpm_min_bits as u64,
                wpm_max_bits as u64,
                baud_bits as u64,
                data_bits as u64,
                stop_bits_bits as u64,
                match alphabet {
                    crate::config::settings::RttyAlphabet::Baudot => 1u64,
                    crate::config::settings::RttyAlphabet::Ascii => 2u64,
                },
            ],
        ),
{
    let vals: [u64; 8] = [
        rate as u64,
        if complex { 1 } else { 0 },
        wpm_min_bits as u64,
        wpm_max_bits as u64,
        baud_bits as u64,
        data_bits as u64,
        stop_bits_bits as u64,
        match alphabet {
            crate::config::settings::RttyAlphabet::Baudot => 1,
            crate::config::settings::RttyAlphabet::Ascii => 2,
        },
    ];
    let r = fingerprint(&vals);
    assert(vals@ =~= seq![
        rate as u64,
        if complex { 1u64 } else { 0u64 },
        wpm_min_bits as u64,
        wpm_max_bits as u64,
        baud_bits as u64,
        data_bits as u64,
        stop_bits_bits as u64,
        match alphabet {
            crate::config::settings::RttyAlphabet::Baudot => 1u64,
            crate::config::settings::RttyAlphabet::Ascii => 2u64,
        },
    ]);
    r
}

/// FNV-1a over whole words, see `fingerprint_of`.
pub fn fingerprint(vals: &[u64]) -> (r: u64)
    ensures
        r == fingerprint_of(vals@),
{
    let mut h: u64 = FNV_OFFSET;
    let mut i: usize = 0;
    while i < vals.len()
        invariant
            i <= vals@.len(),
            h == fingerprint_of(vals@.take(i as int)),
        decreases vals@.len() - i,
    {
        assert(vals@.take(i + 1).drop_last() =~= vals@.take(i as int));
        assert(vals@.take(i + 1).last() == vals@[i as int]);
        h = (h ^ vals[i]).wrapping_mul(FNV_PRIME);
        i += 1;
    }
    assert(vals@.take(i as int) =~= vals@);
    h
}
} // verus!
