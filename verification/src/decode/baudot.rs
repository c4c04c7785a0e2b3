//! Five bit teleprinter alphabet.
//!
//! The tables are the widely used variant of the international telegraph
//! alphabet number two: the letters case is standard, the figures case follows
//! the American teleprinter assignment that amateur traffic uses. The index is
//! the code value with the first transmitted bit as the least significant one,
//! which is the order the framing produces.

use vstd::prelude::*;

verus! {

/// Shift to the figures case.
pub const CODE_FIGURES: u8 = 0x1B;
/// Shift to the letters case.
pub const CODE_LETTERS: u8 = 0x1F;
/// The space, the same in both cases.
pub const CODE_SPACE: u8 = 0x04;

/// Letters case, by code value; NUL marks a position with no character.
pub open spec fn letters_case(code: nat) -> char {
    if code == 0 {
        '\0'
    } else if code == 1 {
        'E'
    } else if code == 2 {
        '\n'
    } else if code == 3 {
        'A'
    } else if code == 4 {
        ' '
    } else if code == 5 {
        'S'
    } else if code == 6 {
        'I'
    } else if code == 7 {
        'U'
    } else if code == 8 {
        '\r'
    } else if code == 9 {
        'D'
    } else if code == 10 {
        'R'
    } else if code == 11 {
        'J'
    } else if code == 12 {
        'N'
    } else if code == 13 {
        'F'
    } else if code == 14 {
        'C'
    } else if code == 15 {
        'K'
    } else if code == 16 {
        'T'
    } else if code == 17 {
        'Z'
    } else if code == 18 {
        'L'
    } else if code == 19 {
        'W'
    } else if code == 20 {
        'H'
    } else if code == 21 {
        'Y'
    } else if code == 22 {
        'P'
    } else if code == 23 {
        'Q'
    } else if code == 24 {
        'O'
    } else if code == 25 {
        'B'
    } else if code == 26 {
        'G'
    } else if code == 27 {
        '\0'
    } else if code == 28 {
        'M'
    } else if code == 29 {
        'X'
    } else if code == 30 {
        'V'
    } else {
        '\0'
    }
}

/// Figures case, by code value; NUL marks a position with no character.
pub open spec fn figures_case(code: nat) -> char {
    if code == 0 {
        '\0'
    } else if code == 1 {
        '3'
    } else if code == 2 {
        '\n'
    } else if code == 3 {
        '-'
    } else if code == 4 {
        ' '
    } else if code == 5 {
        '\u{7}'
    } else if code == 6 {
        '8'
    } else if code == 7 {
        '7'
    } else if code == 8 {
        '\r'
    } else if code == 9 {
        '$'
    } else if code == 10 {
        '4'
    } else if code == 11 {
        '\''
    } else if code == 12 {
        ','
    } else if code == 13 {
        '!'
    } else if code == 14 {
        ':'
    } else if code == 15 {
        '('
    } else if code == 16 {
        '5'
    } else if code == 17 {
        '"'
    } else if code == 18 {
        ')'
    } else if code == 19 {
        '2'
    } else if code == 20 {
        '#'
    } else if code == 21 {
        '6'
    } else if code == 22 {
        '0'
    } else if code == 23 {
        '1'
    } else if code == 24 {
        '9'
    } else if code == 25 {
        '?'
    } else if code == 26 {
        '&'
    } else if code == 27 {
        '\0'
    } else if code == 28 {
        '.'
    } else if code == 29 {
        '/'
    } else if code == 30 {
        ';'
    } else {
        '\0'
    }
}

/// Letters case table lookup.
fn letter_at(code: u8) -> (c: char)
    requires
        code < 32,
    ensures
        c == letters_case(code as nat),
{
    match code {
        0 => '\0',
        1 => 'E',
        2 => '\n',
        3 => 'A',
        4 => ' ',
        5 => 'S',
        6 => 'I',
        7 => 'U',
        8 => '\r',
        9 => 'D',
        10 => 'R',
        11 => 'J',
        12 => 'N',
        13 => 'F',
        14 => 'C',
        15 => 'K',
        16 => 'T',
        17 => 'Z',
        18 => 'L',
        19 => 'W',
        20 => 'H',
        21 => 'Y',
        22 => 'P',
        23 => 'Q',
        24 => 'O',
        25 => 'B',
        26 => 'G',
        27 => '\0',
        28 => 'M',
        29 => 'X',
        30 => 'V',
        _ => '\0',
    }
}

/// Figures case table lookup.
fn figure_at(code: u8) -> (c: char)
    requires
        code < 32,
    ensures
        c == figures_case(code as nat),
{
    match code {
        0 => '\0',
        1 => '3',
        2 => '\n',
        3 => '-',
        4 => ' ',
        5 => '\u{7}',
        6 => '8',
        7 => '7',
        8 => '\r',
        9 => '$',
        10 => '4',
        11 => '\'',
        12 => ',',
        13 => '!',
        14 => ':',
        15 => '(',
        16 => '5',
        17 => '"',
        18 => ')',
        19 => '2',
        20 => '#',
        21 => '6',
        22 => '0',
        23 => '1',
        24 => '9',
        25 => '?',
        26 => '&',
        27 => '\0',
        28 => '.',
        29 => '/',
        30 => ';',
        _ => '\0',
    }
}

/// One step of the shift state machine on a code value, of which only the
/// low five bits count: the case after the code, and the character it prints.
/// The shift codes print nothing; a space prints in both cases and returns to
/// letters when `unshift_on_space` is set; a position with no character in the
/// current case prints nothing.
pub open spec fn ita2_step(figures: bool, unshift_on_space: bool, code: u8) -> (bool, Option<char>) {
    let c = code as nat % 32;
    if c == CODE_FIGURES {
        (true, None)
    } else if c == CODE_LETTERS {
        (false, None)
    } else if c == CODE_SPACE {
        (if unshift_on_space { false } else { figures }, Some(' '))
    } else {
        let ch = if figures { figures_case(c) } else { letters_case(c) };
        (figures, if ch == '\0' { None } else { Some(ch) })
    }
}

/// Decodes a run of codes from a given case: the case at the end and the
/// characters printed, in order.
pub open spec fn ita2_run(figures: bool, unshift_on_space: bool, codes: Seq<u8>) -> (bool, Seq<char>)
    decreases codes.len(),
{
    if codes.len() == 0 {
        (figures, Seq::empty())
    } else {
        let (f, text) = ita2_run(figures, unshift_on_space, codes.drop_last());
        let (g, out) = ita2_step(f, unshift_on_space, codes.last());
        (g, match out {
            Some(ch) => text.push(ch),
            None => text,
        })
    }
}

/// A case holds until something changes it: over codes that hold no shift
/// code, and no space when a space returns to letters, the case at the end is
/// the case at the start, and every character printed comes from that case.
pub proof fn lemma_case_holds(figures: bool, unshift_on_space: bool, codes: Seq<u8>)
    requires
        forall|i: int|
            0 <= i < codes.len() ==> {
                let c = #[trigger] codes[i] as nat % 32;
                c != CODE_FIGURES && c != CODE_LETTERS && (unshift_on_space ==> c != CODE_SPACE)
            },
    ensures
        ita2_run(figures, unshift_on_space, codes).0 == figures,
        forall|j: int|
            0 <= j < ita2_run(figures, unshift_on_space, codes).1.len() ==> {
                let ch = #[trigger] ita2_run(figures, unshift_on_space, codes).1[j];
                ch == ' ' || exists|c: nat|
                    c < 32 && ch == (if figures { figures_case(c) } else { letters_case(c) })
            },
    decreases codes.len(),
{
    if codes.len() > 0 {
        let prev = codes.drop_last();
        assert forall|i: int| 0 <= i < prev.len() implies {
            let c = #[trigger] prev[i] as nat % 32;
            c != CODE_FIGURES && c != CODE_LETTERS && (unshift_on_space ==> c != CODE_SPACE)
        } by {
            assert(prev[i] == codes[i]);
        }
        lemma_case_holds(figures, unshift_on_space, prev);
        let last = codes.last();
        assert(codes[codes.len() - 1] == last);
        let (f, text) = ita2_run(figures, unshift_on_space, prev);
        let out = ita2_step(f, unshift_on_space, last).1;
        let all = ita2_run(figures, unshift_on_space, codes).1;
        assert forall|j: int| 0 <= j < all.len() implies {
            let ch = #[trigger] all[j];
            ch == ' ' || exists|c: nat|
                c < 32 && ch == (if figures { figures_case(c) } else { letters_case(c) })
        } by {
            if j < text.len() {
                assert(all[j] == text[j]);
            } else {
                let c = last as nat % 32;
                if c != CODE_SPACE {
                    assert(all[j] == (if figures { figures_case(c) } else { letters_case(c) }));
                }
            }
        }
    }
}

/// The letters case of the alphabet, code by code: each code of the letters
/// case prints its letter of the international telegraph alphabet number two,
/// the two line controls and the space print as themselves, and the blank
/// position and the shift codes print nothing. None of these codes leaves the
/// letters case, except that the figures shift enters the figures case.
pub proof fn lemma_letters_alphabet(u: bool)
    ensures
        ita2_step(false, u, 0x00) == (false, None::<char>),
        ita2_step(false, u, 0x01) == (false, Some('E')),
        ita2_step(false, u, 0x02) == (false, Some('\n')),
        ita2_step(false, u, 0x03) == (false, Some('A')),
        ita2_step(false, u, 0x04) == (false, Some(' ')),
        ita2_step(false, u, 0x05) == (false, Some('S')),
        ita2_step(false, u, 0x06) == (false, Some('I')),
        ita2_step(false, u, 0x07) == (false, Some('U')),
        ita2_step(false, u, 0x08) == (false, Some('\r')),
        ita2_step(false, u, 0x09) == (false, Some('D')),
        ita2_step(false, u, 0x0A) == (false, Some('R')),
        ita2_step(false, u, 0x0B) == (false, Some('J')),
        ita2_step(false, u, 0x0C) == (false, Some('N')),
        ita2_step(false, u, 0x0D) == (false, Some('F')),
        ita2_step(false, u, 0x0E) == (false, Some('C')),
        ita2_step(false, u, 0x0F) == (false, Some('K')),
        ita2_step(false, u, 0x10) == (false, Some('T')),
        ita2_step(false, u, 0x11) == (false, Some('Z')),
        ita2_step(false, u, 0x12) == (false, Some('L')),
        ita2_step(false, u, 0x13) == (false, Some('W')),
        ita2_step(false, u, 0x14) == (false, Some('H')),
        ita2_step(false, u, 0x15) == (false, Some('Y')),
        ita2_step(false, u, 0x16) == (false, Some('P')),
        ita2_step(false, u, 0x17) == (false, Some('Q')),
        ita2_step(false, u, 0x18) == (false, Some('O')),
        ita2_step(false, u, 0x19) == (false, Some('B')),
        ita2_step(false, u, 0x1A) == (false, Some('G')),
        ita2_step(false, u, 0x1B) == (true, None::<char>),
        ita2_step(false, u, 0x1C) == (false, Some('M')),
        ita2_step(false, u, 0x1D) == (false, Some('X')),
        ita2_step(false, u, 0x1E) == (false, Some('V')),
        ita2_step(false, u, 0x1F) == (false, None::<char>),
{
}

/// The figures case of the alphabet, code by code, in the assignment amateur
/// teleprinters use. A space returns to letters when `u` is set; every other
/// code but the letters shift keeps the figures case.
pub proof fn lemma_figures_alphabet(u: bool)
    ensures
        ita2_step(true, u, 0x00) == (true, None::<char>),
        ita2_step(true, u, 0x01) == (true, Some('3')),
        ita2_step(true, u, 0x02) == (true, Some('\n')),
        ita2_step(true, u, 0x03) == (true, Some('-')),
        ita2_step(true, u, 0x04) == (!u, Some(' ')),
        ita2_step(true, u, 0x05) == (true, Some('\u{7}')),
        ita2_step(true, u, 0x06) == (true, Some('8')),
        ita2_step(true, u, 0x07) == (true, Some('7')),
        ita2_step(true, u, 0x08) == (true, Some('\r')),
        ita2_step(true, u, 0x09) == (true, Some('$')),
        ita2_step(true, u, 0x0A) == (true, Some('4')),
        ita2_step(true, u, 0x0B) == (true, Some('\'')),
        ita2_step(true, u, 0x0C) == (true, Some(',')),
        ita2_step(true, u, 0x0D) == (true, Some('!')),
        ita2_step(true, u, 0x0E) == (true, Some(':')),
        ita2_step(true, u, 0x0F) == (true, Some('(')),
        ita2_step(true, u, 0x10) == (true, Some('5')),
        ita2_step(true, u, 0x11) == (true, Some('"')),
        ita2_step(true, u, 0x12) == (true, Some(')')),
        ita2_step(true, u, 0x13) == (true, Some('2')),
        ita2_step(true, u, 0x14) == (true, Some('#')),
        ita2_step(true, u, 0x15) == (true, Some('6')),
        ita2_step(true, u, 0x16) == (true, Some('0')),
        ita2_step(true, u, 0x17) == (true, Some('1')),
        ita2_step(true, u, 0x18) == (true, Some('9')),
        ita2_step(true, u, 0x19) == (true, Some('?')),
        ita2_step(true, u, 0x1A) == (true, Some('&')),
        ita2_step(true, u, 0x1B) == (true, None::<char>),
        ita2_step(true, u, 0x1C) == (true, Some('.')),
        ita2_step(true, u, 0x1D) == (true, Some('/')),
        ita2_step(true, u, 0x1E) == (true, Some(';')),
        ita2_step(true, u, 0x1F) == (false, None::<char>),
{
}

/// Some code prints the character in the letters case.
pub open spec fn letters_print(u: bool, c: char) -> bool {
    exists|a: u8| a < 32 && #[trigger] ita2_step(false, u, a).1 == Some(c)
}

/// In the letters case no two codes print the same character, and every
/// letter from A to Z is printed by some code: the letters case is a one to
/// one assignment of the alphabet to codes.
pub proof fn lemma_letters_one_to_one(u: bool)
    ensures
        forall|a: u8, b: u8|
            a < 32 && b < 32 && a != b && (#[trigger] ita2_step(false, u, a)).1 is Some
                ==> ita2_step(false, u, a).1 != (#[trigger] ita2_step(false, u, b)).1,
        forall|c: char| 'A' <= c <= 'Z' ==> #[trigger] letters_print(u, c),
{
    lemma_letters_alphabet(u);
    assert forall|c: char| 'A' <= c <= 'Z' implies #[trigger] letters_print(u, c) by {
        let k = c as u32;
        assert(65 <= k <= 90);
        if k == 65 { assert(ita2_step(false, u, 0x03).1 == Some(c)); }
        else if k == 66 { assert(ita2_step(false, u, 0x19).1 == Some(c)); }
        else if k == 67 { assert(ita2_step(false, u, 0x0E).1 == Some(c)); }
        else if k == 68 { assert(ita2_step(false, u, 0x09).1 == Some(c)); }
        else if k == 69 { assert(ita2_step(false, u, 0x01).1 == Some(c)); }
        else if k == 70 { assert(ita2_step(false, u, 0x0D).1 == Some(c)); }
        else if k == 71 { assert(ita2_step(false, u, 0x1A).1 == Some(c)); }
        else if k == 72 { assert(ita2_step(false, u, 0x14).1 == Some(c)); }
        else if k == 73 { assert(ita2_step(false, u, 0x06).1 == Some(c)); }
        else if k == 74 { assert(ita2_step(false, u, 0x0B).1 == Some(c)); }
        else if k == 75 { assert(ita2_step(false, u, 0x0F).1 == Some(c)); }
        else if k == 76 { assert(ita2_step(false, u, 0x12).1 == Some(c)); }
        else if k == 77 { assert(ita2_step(false, u, 0x1C).1 == Some(c)); }
        else if k == 78 { assert(ita2_step(false, u, 0x0C).1 == Some(c)); }
        else if k == 79 { assert(ita2_step(false, u, 0x18).1 == Some(c)); }
        else if k == 80 { assert(ita2_step(false, u, 0x16).1 == Some(c)); }
        else if k == 81 { assert(ita2_step(false, u, 0x17).1 == Some(c)); }
        else if k == 82 { assert(ita2_step(false, u, 0x0A).1 == Some(c)); }
        else if k == 83 { assert(ita2_step(false, u, 0x05).1 == Some(c)); }
        else if k == 84 { assert(ita2_step(false, u, 0x10).1 == Some(c)); }
        else if k == 85 { assert(ita2_step(false, u, 0x07).1 == Some(c)); }
        else if k == 86 { assert(ita2_step(false, u, 0x1E).1 == Some(c)); }
        else if k == 87 { assert(ita2_step(false, u, 0x13).1 == Some(c)); }
        else if k == 88 { assert(ita2_step(false, u, 0x1D).1 == Some(c)); }
        else if k == 89 { assert(ita2_step(false, u, 0x15).1 == Some(c)); }
        else { assert(ita2_step(false, u, 0x11).1 == Some(c)); }
    }
}

/// Shift state machine.
pub struct Ita2 {
    figures: bool,
    /// Return to the letters case after a space. Standard practice on the bands
    /// and the only way to recover from a lost letters shift within a word.
    pub unshift_on_space: bool,
}

impl Ita2 {
    /// Whether the machine is in the figures case.
    pub closed spec fn figures(&self) -> bool {
        self.figures
    }

    /// The value of `unshift_on_space`.
    pub closed spec fn unshifts(&self) -> bool {
        self.unshift_on_space
    }

    pub fn new(unshift_on_space: bool) -> (r: Ita2)
        ensures
            !r.figures(),
            r.unshifts() == unshift_on_space,
    {
        Ita2 { figures: false, unshift_on_space }
    }

    pub fn reset(&mut self)
        ensures
            !final(self).figures(),
            final(self).unshifts() == old(self).unshifts(),
    {
        self.figures = false;
    }

    pub fn in_figures(&self) -> (r: bool)
        ensures
            r == self.figures(),
    {
        self.figures
    }

    /// Decodes one code value. Returns None for the shift codes and for the
    /// positions that carry no character.
    pub fn decode(&mut self, code: u8) -> (r: Option<char>)
        ensures
            (final(self).figures(), r) == ita2_step(old(self).figures(), old(self).unshifts(), code),
            final(self).unshifts() == old(self).unshifts(),
    {
        let low = code & 0x1F;
        assert(low == code as nat % 32) by (bit_vector)
            requires low == code & 0x1F;
        if low == CODE_FIGURES {
            self.figures = true;
            None
        } else if low == CODE_LETTERS {
            self.figures = false;
            None
        } else if low == CODE_SPACE {
            if self.unshift_on_space {
                self.figures = false;
            }
            Some(' ')
        } else {
            let ch = if self.figures {
                figure_at(low)
            } else {
                letter_at(low)
            };
            if ch == '\0' {
                None
            } else {
                Some(ch)
            }
        }
    }
}

/// Whether a value of a plain character link prints: line feed, carriage
/// return and the printable range.
pub open spec fn ascii_prints(v: u8) -> bool {
    v == 0x0A || v == 0x0D || (0x20 <= v && v <= 0x7E)
}

/// Decodes a value from a link that carries plain character codes rather than
/// the five bit alphabet. The high bit is dropped because a seven bit link with
/// a parity bit in the eighth position is the common case.
pub fn decode_ascii(code: u8, data_bits: usize) -> (r: Option<char>)
    ensures
        ({
            let v: u8 = if data_bits >= 8 { code } else { (code as nat % 128) as u8 };
            if ascii_prints(v) {
                r == Some(v as char)
            } else {
                r is None
            }
        }),
{
    let value = if data_bits >= 8 { code } else { code & 0x7F };
    assert(data_bits < 8 ==> value == (code as nat % 128) as u8) by (bit_vector)
        requires data_bits >= 8 || value == code & 0x7F;
    if value == 0x0A || value == 0x0D || (0x20 <= value && value <= 0x7E) {
        Some(value as char)
    } else {
        None
    }
}

} // verus!
