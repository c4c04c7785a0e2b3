use rxscope::config::settings::{RttyAlphabet, RttyParity, TextCase};
use rxscope::decode::baudot::{decode_ascii, Ita2};
use rxscope::decode::fsk::{accept_frame, check_parity, frame_elements, prints, Frame};
use rxscope::decode::morse::{emit_pattern, letter_of, prosign_of, Gate};
use rxscope::decode::psk::Framing;
use rxscope::decode::varicode::{code_of, packed, Alphabet};
use rxscope::decode::{decoder_signature, fingerprint, Mode, FNV_OFFSET};

fn send(framing: &mut Framing, text: &str) -> Vec<u16> {
    let mut out = Vec::new();
    for ch in text.chars() {
        let code = code_of(ch).expect("character in the table");
        for b in code.chars() {
            if let Some(c) = framing.accept(b == '1') {
                out.push(c);
            }
        }
        for _ in 0..2 {
            if let Some(c) = framing.accept(false) {
                out.push(c);
            }
        }
    }
    out
}

#[test]
fn a_transmission_comes_out_of_the_framing_as_its_codes() {
    let mut framing = Framing::new();
    let alphabet = Alphabet::new();
    let codes = send(&mut framing, "cq de ra0ff");
    let text: String = codes.iter().map(|&c| alphabet.decode(c).unwrap()).collect();
    assert_eq!(text, "cq de ra0ff");
    assert_eq!(codes[0], packed(code_of('c').unwrap()));
}

#[test]
fn a_lone_one_is_not_a_character_boundary() {
    let mut framing = Framing::new();
    assert_eq!(framing.accept(true), None);
    assert_eq!(framing.accept(false), None);
    assert_eq!(framing.accept(true), None);
    assert_eq!(framing.accept(false), None);
    // The second nought closes the code 101.
    assert_eq!(framing.accept(false), Some(5));
    // Further noughts close nothing.
    assert_eq!(framing.accept(false), None);
    framing.reset();
    assert_eq!(framing.accept(false), None);
}

#[test]
fn the_teleprinter_shifts_between_cases() {
    let mut alpha = Ita2::new(true);
    assert_eq!(alpha.decode(0x03), Some('A'));
    assert_eq!(alpha.decode(0x1B), None);
    assert!(alpha.in_figures());
    assert_eq!(alpha.decode(0x03), Some('-'));
    assert_eq!(alpha.decode(0x01), Some('3'));
    // A space returns to letters when unshift on space is set.
    assert_eq!(alpha.decode(0x04), Some(' '));
    assert!(!alpha.in_figures());
    assert_eq!(alpha.decode(0x01), Some('E'));
    assert_eq!(alpha.decode(0x1B), None);
    assert_eq!(alpha.decode(0x1F), None);
    assert!(!alpha.in_figures());
    // Only the low five bits count.
    assert_eq!(alpha.decode(0x20 | 0x03), Some('A'));
    // A position without a character prints nothing.
    assert_eq!(alpha.decode(0x00), None);
}

#[test]
fn without_unshift_on_space_the_figures_case_holds() {
    let mut alpha = Ita2::new(false);
    alpha.decode(0x1B);
    assert_eq!(alpha.decode(0x04), Some(' '));
    assert!(alpha.in_figures());
    assert_eq!(alpha.decode(0x10), Some('5'));
    alpha.reset();
    assert!(!alpha.in_figures());
    assert_eq!(alpha.decode(0x10), Some('T'));
}

#[test]
fn a_plain_character_link_prints_the_printable_range() {
    assert_eq!(decode_ascii(b'A', 7), Some('A'));
    assert_eq!(decode_ascii(b'A' | 0x80, 7), Some('A'));
    assert_eq!(decode_ascii(b'A' | 0x80, 8), None);
    assert_eq!(decode_ascii(0x0A, 8), Some('\n'));
    assert_eq!(decode_ascii(0x0D, 7), Some('\r'));
    assert_eq!(decode_ascii(0x07, 7), None);
    assert_eq!(decode_ascii(0x7F, 7), None);
}

#[test]
fn the_parity_bit_is_checked_and_removed() {
    // 0x03 has two ones: even parity wants a nought, odd parity a one.
    assert_eq!(check_parity(0x03, 5, RttyParity::Even), Some(0x03));
    assert_eq!(check_parity(0x03 | 0x20, 5, RttyParity::Even), None);
    assert_eq!(check_parity(0x03 | 0x20, 5, RttyParity::Odd), Some(0x03));
    assert_eq!(check_parity(0x03, 5, RttyParity::Odd), None);
    assert_eq!(check_parity(0x41 | 0x80, 7, RttyParity::Mark), Some(0x41));
    assert_eq!(check_parity(0x41, 7, RttyParity::Mark), None);
    assert_eq!(check_parity(0x41, 7, RttyParity::Space), Some(0x41));
    assert_eq!(check_parity(0x1FF, 8, RttyParity::Absent), Some(0x1FF));
    assert_eq!(frame_elements(5, RttyParity::Absent), 5);
    assert_eq!(frame_elements(7, RttyParity::Even), 8);
}

#[test]
fn a_frame_is_decoded_under_its_alphabet() {
    let mut alpha = Ita2::new(true);
    assert_eq!(accept_frame(&mut alpha, RttyAlphabet::Baudot, 0x03, 5, RttyParity::Absent), Frame::Received('A'));
    assert_eq!(accept_frame(&mut alpha, RttyAlphabet::Baudot, 0x1B, 5, RttyParity::Absent), Frame::Empty);
    assert!(alpha.in_figures());
    assert_eq!(accept_frame(&mut alpha, RttyAlphabet::Baudot, 0x03 | 0x20, 5, RttyParity::Even), Frame::ParityError);
    assert!(alpha.in_figures());
    assert_eq!(accept_frame(&mut alpha, RttyAlphabet::Ascii, 0x41, 7, RttyParity::Space), Frame::Received('A'));
    assert!(prints('\n'));
    assert!(!prints('\r'));
}

#[test]
fn the_reported_names_are_stable() {
    assert_eq!(Mode::Psk31.as_str(), "PSK31");
    assert_eq!(Mode::Unknown.as_str(), "----");
    assert_eq!(Mode::Navtex.key(), "mode.navtex");
    assert_eq!(Gate::Level.as_str(), "sqlch");
    assert_eq!(Gate::Flat.key(), "gate.flat");
    assert!(Gate::Open.is_open());
    assert!(!Gate::default().is_open());
    assert_eq!(Gate::default(), Gate::Warmup);
}

fn pat(s: &str) -> Vec<char> {
    s.chars().collect()
}

#[test]
fn keying_patterns_resolve_through_the_table() {
    assert_eq!(letter_of(&pat(".-")), Some('A'));
    assert_eq!(letter_of(&pat("-----")), Some('0'));
    assert_eq!(letter_of(&pat("...-..-")), Some('$'));
    assert_eq!(letter_of(&pat("........")), None);
    assert_eq!(letter_of(&pat(".x")), None);
    assert_eq!(letter_of(&pat(".........")), None);
    assert_eq!(prosign_of(&pat("...-.-")), Some("<SK>"));
    assert_eq!(prosign_of(&pat("........")), Some("<ERR>"));
    assert_eq!(prosign_of(&pat(".-")), None);
}

#[test]
fn a_finished_pattern_writes_its_text() {
    let mut out = String::new();
    assert_eq!(emit_pattern(&mut out, &pat("-.-"), true, TextCase::Lower, true), Some(true));
    assert_eq!(emit_pattern(&mut out, &pat("-.-.-"), true, TextCase::Lower, true), Some(true));
    assert_eq!(emit_pattern(&mut out, &pat("-.-.-"), false, TextCase::Upper, false), Some(false));
    assert_eq!(emit_pattern(&mut out, &pat("..--..--"), false, TextCase::Upper, true), Some(false));
    assert_eq!(emit_pattern(&mut out, &pat(""), true, TextCase::Upper, true), None);
    assert_eq!(emit_pattern(&mut out, &pat(".-"), false, TextCase::AsReceived, true), Some(true));
    assert_eq!(out, "k<KA>*A");
}

#[test]
fn the_fingerprint_is_fnv_over_words() {
    assert_eq!(fingerprint(&[]), 0xcbf2_9ce4_8422_2325);
    assert_eq!(fingerprint(&[0]), FNV_OFFSET.wrapping_mul(0x0000_0100_0000_01b3));
    let mut h: u64 = 0xcbf2_9ce4_8422_2325;
    for v in [12000u64, 1, 5, 40, 7, 5, 9, 1] {
        h = (h ^ v).wrapping_mul(0x0000_0100_0000_01b3);
    }
    assert_eq!(decoder_signature(12000, true, 5, 40, 7, 5, 9, RttyAlphabet::Baudot), h);
    assert_ne!(decoder_signature(12000, false, 5, 40, 7, 5, 9, RttyAlphabet::Baudot), h);
    assert_ne!(decoder_signature(12000, true, 5, 40, 7, 5, 9, RttyAlphabet::Ascii), h);
}
