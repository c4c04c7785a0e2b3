use rxscope::decode::varicode::{code_of, packed, Alphabet, MAX_BITS, TABLE};

#[test]
fn no_code_holds_the_boundary_pattern() {
    // The one property the framing rests on. A code containing two noughts
    // would be split in the middle by the decoder and neither half would
    // resolve, so this is a transcription check rather than a claim about
    // the format.
    for &(code, ch) in TABLE.iter() {
        assert!(!code.contains("00"), "{:?} holds a boundary", ch);
        assert!(code.starts_with('1'), "{:?} does not begin with one", ch);
        assert!(code.ends_with('1'), "{:?} does not end with one", ch);
        assert!(code.len() as u32 <= MAX_BITS, "{:?} is too long", ch);
    }
}

#[test]
fn the_packed_form_is_a_unique_key() {
    // What lets the table hold no length column. A collision would make one
    // character decode as another, which is the failure that reads as a
    // receiver problem rather than as a table problem.
    let alphabet = Alphabet::new();
    assert_eq!(alphabet.len(), TABLE.len());
    for &(code, ch) in TABLE.iter() {
        assert_eq!(alphabet.decode(packed(code)), Some(ch));
    }
}

#[test]
fn the_common_letters_are_the_short_ones() {
    // The whole reason the format carries usable text at thirty one hertz.
    assert_eq!(code_of(' '), Some("1"));
    assert_eq!(code_of('e'), Some("11"));
    assert_eq!(code_of('t'), Some("101"));
    // And the rare ones are not.
    assert_eq!(code_of('q').map(str::len), Some(9));
    assert_eq!(code_of('z').map(str::len), Some(9));
}

#[test]
fn packing_reads_the_code_as_binary() {
    assert_eq!(packed("1"), 1);
    assert_eq!(packed("11"), 3);
    assert_eq!(packed("101"), 5);
    assert_eq!(packed("1011011101"), 0b1011011101);
}

#[test]
fn an_unknown_pattern_resolves_to_nothing() {
    let alphabet = Alphabet::default();
    // Two noughts never occur inside a code, so a run holding them is noise.
    assert_eq!(alphabet.decode(0b1001), None);
    assert_eq!(alphabet.decode(0), None);
    assert_eq!(code_of('\u{2603}'), None);
}
