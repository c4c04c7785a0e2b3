//! Keying decoder state that the interface reports.

use vstd::prelude::*;
use crate::config::settings::TextCase;
use crate::text::{lower, lower_char, push_char, push_str};

verus! {

/// Reason the keying decision is held shut.
///
/// A detector that produces nothing and a detector that produces nonsense look
/// identical from the outside: both give an empty text line. They call for
/// opposite actions, so the blocking condition is published rather than folded
/// into a single squelched flag. The order the conditions are tested in is the
/// order they are worth acting on: an absolute level gate is the operator's
/// crude control and shadows everything below it, a ratio gate is the
/// meaningful one, and a flat envelope means the two level estimates landed in
/// the same population, which is one state rather than two.
#[derive(Debug, Clone, Copy, PartialEq, Eq, Structural)]
pub enum Gate {
    /// Threshold logic is running.
    Open,
    /// Level windows have not filled yet.
    Warmup,
    /// The keying decoder is switched off.
    Disabled,
    /// Envelope peak is below the operator level squelch.
    Level,
    /// Peak to floor ratio is below the operator minimum.
    Snr,
    /// Peak and floor are the same population: a carrier, or silence.
    Flat,
}

impl Default for Gate {
    fn default() -> (r: Gate)
        ensures
            r == Gate::Warmup,
    {
        Gate::Warmup
    }
}

impl Gate {
    pub open spec fn spec_as_str(self) -> Seq<char> {
        match self {
            Gate::Open => "open"@,
            Gate::Warmup => "warm"@,
            Gate::Disabled => "off"@,
            Gate::Level => "sqlch"@,
            Gate::Snr => "snr"@,
            Gate::Flat => "flat"@,
        }
    }

    pub open spec fn spec_key(self) -> Seq<char> {
        match self {
            Gate::Open => "gate.open"@,
            Gate::Warmup => "gate.warm"@,
            Gate::Disabled => "gate.off"@,
            Gate::Level => "gate.sqlch"@,
            Gate::Snr => "gate.snr"@,
            Gate::Flat => "gate.flat"@,
        }
    }

    /// Short form for the status line.
    pub fn as_str(self) -> (r: &'static str)
        ensures
            r@ == self.spec_as_str(),
    {
        match self {
            Gate::Open => "open",
            Gate::Warmup => "warm",
            Gate::Disabled => "off",
            Gate::Level => "sqlch",
            Gate::Snr => "snr",
            Gate::Flat => "flat",
        }
    }

    /// Localization key.
    pub fn key(self) -> (r: &'static str)
        ensures
            r@ == self.spec_key(),
    {
        match self {
            Gate::Open => "gate.open",
            Gate::Warmup => "gate.warm",
            Gate::Disabled => "gate.off",
            Gate::Level => "gate.sqlch",
            Gate::Snr => "gate.snr",
            Gate::Flat => "gate.flat",
        }
    }

    pub fn is_open(self) -> (r: bool)
        ensures
            r == (self == Gate::Open),
    {
        self == Gate::Open
    }
}


// ------------------------------------------------------------- patterns

/// Pattern to character, for patterns of dots and dashes read as a binary
/// number, a dash being one, together with their length.
pub open spec fn morse_letter(len: nat, value: nat) -> Option<char> {
    if len == 2 && value == 1 {
        Some('A')
    } else if len == 4 && value == 8 {
        Some('B')
    } else if len == 4 && value == 10 {
        Some('C')
    } else if len == 3 && value == 4 {
        Some('D')
    } else if len == 1 && value == 0 {
        Some('E')
    } else if len == 4 && value == 2 {
        Some('F')
    } else if len == 3 && value == 6 {
        Some('G')
    } else if len == 4 && value == 0 {
        Some('H')
    } else if len == 2 && value == 0 {
        Some('I')
    } else if len == 4 && value == 7 {
        Some('J')
    } else if len == 3 && value == 5 {
        Some('K')
    } else if len == 4 && value == 4 {
        Some('L')
    } else if len == 2 && value == 3 {
        Some('M')
    } else if len == 2 && value == 2 {
        Some('N')
    } else if len == 3 && value == 7 {
        Some('O')
    } else if len == 4 && value == 6 {
        Some('P')
    } else if len == 4 && value == 13 {
        Some('Q')
    } else if len == 3 && value == 2 {
        Some('R')
    } else if len == 3 && value == 0 {
        Some('S')
    } else if len == 1 && value == 1 {
        Some('T')
    } else if len == 3 && value == 1 {
        Some('U')
    } else if len == 4 && value == 1 {
        Some('V')
    } else if len == 3 && value == 3 {
        Some('W')
    } else if len == 4 && value == 9 {
        Some('X')
    } else if len == 4 && value == 11 {
        Some('Y')
    } else if len == 4 && value == 12 {
        Some('Z')
    } else if len == 5 && value == 31 {
        Some('0')
    } else if len == 5 && value == 15 {
        Some('1')
    } else if len == 5 && value == 7 {
        Some('2')
    } else if len == 5 && value == 3 {
        Some('3')
    } else if len == 5 && value == 1 {
        Some('4')
    } else if len == 5 && value == 0 {
        Some('5')
    } else if len == 5 && value == 16 {
        Some('6')
    } else if len == 5 && value == 24 {
        Some('7')
    } else if len == 5 && value == 28 {
        Some('8')
    } else if len == 5 && value == 30 {
        Some('9')
    } else if len == 6 && value == 21 {
        Some('.')
    } else if len == 6 && value == 51 {
        Some(',')
    } else if len == 6 && value == 12 {
        Some('?')
    } else if len == 6 && value == 30 {
        Some('\'')
    } else if len == 6 && value == 43 {
        Some('!')
    } else if len == 5 && value == 18 {
        Some('/')
    } else if len == 5 && value == 22 {
        Some('(')
    } else if len == 6 && value == 45 {
        Some(')')
    } else if len == 5 && value == 8 {
        Some('&')
    } else if len == 6 && value == 56 {
        Some(':')
    } else if len == 6 && value == 42 {
        Some(';')
    } else if len == 5 && value == 17 {
        Some('=')
    } else if len == 5 && value == 10 {
        Some('+')
    } else if len == 6 && value == 33 {
        Some('-')
    } else if len == 6 && value == 13 {
        Some('_')
    } else if len == 6 && value == 18 {
        Some('"')
    } else if len == 7 && value == 9 {
        Some('$')
    } else if len == 6 && value == 26 {
        Some('@')
    } else {
        None
    }
}

pub open spec fn morse_prosign(len: nat, value: nat) -> Option<Seq<char>> {
    if len == 6 && value == 5 {
        Some("<SK>"@)
    } else if len == 5 && value == 2 {
        Some("<SN>"@)
    } else if len == 5 && value == 21 {
        Some("<KA>"@)
    } else if len == 8 && value == 0 {
        Some("<ERR>"@)
    } else if len == 7 && value == 90 {
        Some("<KN>"@)
    } else {
        None
    }
}

fn letter_at(len: u32, value: u32) -> (r: Option<char>)
    ensures
        r == morse_letter(len as nat, value as nat),
{
    match (len, value) {
        (2, 1) => Some('A'),
        (4, 8) => Some('B'),
        (4, 10) => Some('C'),
        (3, 4) => Some('D'),
        (1, 0) => Some('E'),
        (4, 2) => Some('F'),
        (3, 6) => Some('G'),
        (4, 0) => Some('H'),
        (2, 0) => Some('I'),
        (4, 7) => Some('J'),
        (3, 5) => Some('K'),
        (4, 4) => Some('L'),
        (2, 3) => Some('M'),
        (2, 2) => Some('N'),
        (3, 7) => Some('O'),
        (4, 6) => Some('P'),
        (4, 13) => Some('Q'),
        (3, 2) => Some('R'),
        (3, 0) => Some('S'),
        (1, 1) => Some('T'),
        (3, 1) => Some('U'),
        (4, 1) => Some('V'),
        (3, 3) => Some('W'),
        (4, 9) => Some('X'),
        (4, 11) => Some('Y'),
        (4, 12) => Some('Z'),
        (5, 31) => Some('0'),
        (5, 15) => Some('1'),
        (5, 7) => Some('2'),
        (5, 3) => Some('3'),
        (5, 1) => Some('4'),
        (5, 0) => Some('5'),
        (5, 16) => Some('6'),
        (5, 24) => Some('7'),
        (5, 28) => Some('8'),
        (5, 30) => Some('9'),
        (6, 21) => Some('.'),
        (6, 51) => Some(','),
        (6, 12) => Some('?'),
        (6, 30) => Some('\''),
        (6, 43) => Some('!'),
        (5, 18) => Some('/'),
        (5, 22) => Some('('),
        (6, 45) => Some(')'),
        (5, 8) => Some('&'),
        (6, 56) => Some(':'),
        (6, 42) => Some(';'),
        (5, 17) => Some('='),
        (5, 10) => Some('+'),
        (6, 33) => Some('-'),
        (6, 13) => Some('_'),
        (6, 18) => Some('"'),
        (7, 9) => Some('$'),
        (6, 26) => Some('@'),
        _ => None,
    }
}

fn prosign_at(len: u32, value: u32) -> (r: Option<&'static str>)
    ensures
        r matches Some(t) ==> morse_prosign(len as nat, value as nat) == Some(t@),
        r is None ==> morse_prosign(len as nat, value as nat) is None,
{
    match (len, value) {
        (6, 5) => Some("<SK>"),
        (5, 2) => Some("<SN>"),
        (5, 21) => Some("<KA>"),
        (8, 0) => Some("<ERR>"),
        (7, 90) => Some("<KN>"),
        _ => None,
    }
}

/// Whether a character is a keying element.
pub open spec fn is_element(c: char) -> bool {
    c == '.' || c == '-'
}

/// A pattern read as a binary number, a dash being one.
pub open spec fn pattern_value(p: Seq<char>) -> nat
    decreases p.len(),
{
    if p.len() == 0 {
        0
    } else {
        pattern_value(p.drop_last()) * 2 + if p.last() == '-' {
            1nat
        } else {
            0nat
        }
    }
}

/// The character a pattern stands for, if any.
pub open spec fn letter_of_pattern(p: Seq<char>) -> Option<char> {
    if forall|i: int| 0 <= i < p.len() ==> is_element(#[trigger] p[i]) {
        morse_letter(p.len(), pattern_value(p))
    } else {
        None
    }
}

/// The procedural signal a pattern stands for, if any.
pub open spec fn prosign_of_pattern(p: Seq<char>) -> Option<Seq<char>> {
    if forall|i: int| 0 <= i < p.len() ==> is_element(#[trigger] p[i]) {
        morse_prosign(p.len(), pattern_value(p))
    } else {
        None
    }
}

/// Upper case of an ASCII letter; any other character as it is.
pub open spec fn upper(c: char) -> char {
    if 'a' <= c && c <= 'z' {
        ((c as u32) - 32) as char
    } else {
        c
    }
}

/// A letter in the case the operator chose.
pub open spec fn cased(c: char, case: TextCase) -> char {
    match case {
        TextCase::Upper => upper(c),
        TextCase::Lower => lower(c),
        TextCase::AsReceived => c,
    }
}

/// What a finished pattern puts into the text: the name of a procedural
/// signal when those are shown, else its character in the chosen case, else
/// a star when dropouts are marked, else nothing.
pub open spec fn pattern_text(p: Seq<char>, show_prosigns: bool, case: TextCase, mark_dropouts: bool) -> Seq<char> {
    let pro = if show_prosigns {
        prosign_of_pattern(p)
    } else {
        None
    };
    match pro {
        Some(name) => name,
        None => match letter_of_pattern(p) {
            Some(c) => seq![cased(c, case)],
            None => if mark_dropouts {
                seq!['*']
            } else {
                Seq::empty()
            },
        },
    }
}

/// Length and value of a pattern of at most eight elements, or None when it
/// is longer or holds anything else.
fn pattern_key(p: &[char]) -> (r: Option<(u32, u32)>)
    ensures
        r matches Some(k) ==> (forall|i: int| 0 <= i < p@.len() ==> is_element(#[trigger] p@[i]))
            && k.0 == p@.len() && k.1 == pattern_value(p@) && p@.len() <= 8,
        r is None ==> !(forall|i: int| 0 <= i < p@.len() ==> is_element(#[trigger] p@[i])) || p@.len() > 8,
{
    if p.len() > 8 {
        return None;
    }
    let mut v: u32 = 0;
    let mut i: usize = 0;
    while i < p.len()
        invariant
            i <= p@.len() <= 8,
            forall|j: int| 0 <= j < i ==> is_element(#[trigger] p@[j]),
            v == pattern_value(p@.take(i as int)),
            v < pow2_small(i as nat),
        decreases p@.len() - i,
    {
        let c = p[i];
        if c != '.' && c != '-' {
            assert(!is_element(p@[i as int]));
            return None;
        }
        assert(p@.take(i + 1).drop_last() =~= p@.take(i as int));
        assert(p@.take(i + 1).last() == c);
        proof {
            lemma_pow2_small((i + 1) as nat);
        }
        v = v * 2 + if c == '-' { 1 } else { 0 };
        i += 1;
    }
    assert(p@.take(i as int) =~= p@);
    Some((i as u32, v))
}

proof fn lemma_pow2_small(n: nat)
    requires
        n <= 8,
    ensures
        pow2_small(n) <= 256,
{
    reveal_with_fuel(pow2_small, 9);
    assert(n == 0 || n == 1 || n == 2 || n == 3 || n == 4 || n == 5 || n == 6 || n == 7 || n == 8);
}

/// Two to the power of a small number.
spec fn pow2_small(n: nat) -> nat
    decreases n,
{
    if n == 0 {
        1
    } else {
        2 * pow2_small((n - 1) as nat)
    }
}

// ------------------------------------------------------------- the alphabet

/// Reading one more element: the value doubles, and a dash adds one.
pub proof fn lemma_pattern_value_push(p: Seq<char>, c: char)
    ensures
        pattern_value(p.push(c)) == pattern_value(p) * 2 + if c == '-' {
            1nat
        } else {
            0nat
        },
{
    assert(p.push(c).drop_last() =~= p);
}

/// A pattern of elements of the given length and value resolves to what the
/// alphabet has there.
proof fn lemma_resolves(p: Seq<char>, n: nat, v: nat, c: char)
    requires
        p.len() == n,
        pattern_value(p) == v,
        forall|i: int| 0 <= i < p.len() ==> is_element(#[trigger] p[i]),
        morse_letter(n, v) == Some(c),
    ensures
        letter_of_pattern(p) == Some(c),
{
}

/// The letters of the international keying alphabet, each written as its
/// pattern of dots and dashes, resolve to that letter.
pub proof fn lemma_morse_letters()
    ensures
        letter_of_pattern(seq!['.', '-']) == Some('A'),
        letter_of_pattern(seq!['-', '.', '.', '.']) == Some('B'),
        letter_of_pattern(seq!['-', '.', '-', '.']) == Some('C'),
        letter_of_pattern(seq!['-', '.', '.']) == Some('D'),
        letter_of_pattern(seq!['.']) == Some('E'),
        letter_of_pattern(seq!['.', '.', '-', '.']) == Some('F'),
        letter_of_pattern(seq!['-', '-', '.']) == Some('G'),
        letter_of_pattern(seq!['.', '.', '.', '.']) == Some('H'),
        letter_of_pattern(seq!['.', '.']) == Some('I'),
        letter_of_pattern(seq!['.', '-', '-', '-']) == Some('J'),
        letter_of_pattern(seq!['-', '.', '-']) == Some('K'),
        letter_of_pattern(seq!['.', '-', '.', '.']) == Some('L'),
        letter_of_pattern(seq!['-', '-']) == Some('M'),
        letter_of_pattern(seq!['-', '.']) == Some('N'),
        letter_of_pattern(seq!['-', '-', '-']) == Some('O'),
        letter_of_pattern(seq!['.', '-', '-', '.']) == Some('P'),
        letter_of_pattern(seq!['-', '-', '.', '-']) == Some('Q'),
        letter_of_pattern(seq!['.', '-', '.']) == Some('R'),
        letter_of_pattern(seq!['.', '.', '.']) == Some('S'),
        letter_of_pattern(seq!['-']) == Some('T'),
        letter_of_pattern(seq!['.', '.', '-']) == Some('U'),
        letter_of_pattern(seq!['.', '.', '.', '-']) == Some('V'),
        letter_of_pattern(seq!['.', '-', '-']) == Some('W'),
        letter_of_pattern(seq!['-', '.', '.', '-']) == Some('X'),
        letter_of_pattern(seq!['-', '.', '-', '-']) == Some('Y'),
        letter_of_pattern(seq!['-', '-', '.', '.']) == Some('Z'),
{
    assert(pattern_value(seq!['.', '-']) == 1) by {
        assert(pattern_value(Seq::<char>::empty()) == 0);
        lemma_pattern_value_push(Seq::<char>::empty(), '.');
        lemma_pattern_value_push(seq!['.'], '-');
        assert(seq!['.'].push('-') =~= seq!['.', '-']);
    }
    lemma_resolves(seq!['.', '-'], 2, 1, 'A');
    assert(pattern_value(seq!['-', '.', '.', '.']) == 8) by {
        assert(pattern_value(Seq::<char>::empty()) == 0);
        lemma_pattern_value_push(Seq::<char>::empty(), '-');
        lemma_pattern_value_push(seq!['-'], '.');
        assert(seq!['-'].push('.') =~= seq!['-', '.']);
        lemma_pattern_value_push(seq!['-', '.'], '.');
        assert(seq!['-', '.'].push('.') =~= seq!['-', '.', '.']);
        lemma_pattern_value_push(seq!['-', '.', '.'], '.');
        assert(seq!['-', '.', '.'].push('.') =~= seq!['-', '.', '.', '.']);
    }
    lemma_resolves(seq!['-', '.', '.', '.'], 4, 8, 'B');
    assert(pattern_value(seq!['-', '.', '-', '.']) == 10) by {
        assert(pattern_value(Seq::<char>::empty()) == 0);
        lemma_pattern_value_push(Seq::<char>::empty(), '-');
        lemma_pattern_value_push(seq!['-'], '.');
        assert(seq!['-'].push('.') =~= seq!['-', '.']);
        lemma_pattern_value_push(seq!['-', '.'], '-');
        assert(seq!['-', '.'].push('-') =~= seq!['-', '.', '-']);
        lemma_pattern_value_push(seq!['-', '.', '-'], '.');
        assert(seq!['-', '.', '-'].push('.') =~= seq!['-', '.', '-', '.']);
    }
    lemma_resolves(seq!['-', '.', '-', '.'], 4, 10, 'C');
    assert(pattern_value(seq!['-', '.', '.']) == 4) by {
        assert(pattern_value(Seq::<char>::empty()) == 0);
        lemma_pattern_value_push(Seq::<char>::empty(), '-');
        lemma_pattern_value_push(seq!['-'], '.');
        assert(seq!['-'].push('.') =~= seq!['-', '.']);
        lemma_pattern_value_push(seq!['-', '.'], '.');
        assert(seq!['-', '.'].push('.') =~= seq!['-', '.', '.']);
    }
    lemma_resolves(seq!['-', '.', '.'], 3, 4, 'D');
    assert(pattern_value(seq!['.']) == 0) by {
        assert(pattern_value(Seq::<char>::empty()) == 0);
        lemma_pattern_value_push(Seq::<char>::empty(), '.');
    }
    lemma_resolves(seq!['.'], 1, 0, 'E');
    assert(pattern_value(seq!['.', '.', '-', '.']) == 2) by {
        assert(pattern_value(Seq::<char>::empty()) == 0);
        lemma_pattern_value_push(Seq::<char>::empty(), '.');
        lemma_pattern_value_push(seq!['.'], '.');
        assert(seq!['.'].push('.') =~= seq!['.', '.']);
        lemma_pattern_value_push(seq!['.', '.'], '-');
        assert(seq!['.', '.'].push('-') =~= seq!['.', '.', '-']);
        lemma_pattern_value_push(seq!['.', '.', '-'], '.');
        assert(seq!['.', '.', '-'].push('.') =~= seq!['.', '.', '-', '.']);
    }
    lemma_resolves(seq!['.', '.', '-', '.'], 4, 2, 'F');
    assert(pattern_value(seq!['-', '-', '.']) == 6) by {
        assert(pattern_value(Seq::<char>::empty()) == 0);
        lemma_pattern_value_push(Seq::<char>::empty(), '-');
        lemma_pattern_value_push(seq!['-'], '-');
        assert(seq!['-'].push('-') =~= seq!['-', '-']);
        lemma_pattern_value_push(seq!['-', '-'], '.');
        assert(seq!['-', '-'].push('.') =~= seq!['-', '-', '.']);
    }
    lemma_resolves(seq!['-', '-', '.'], 3, 6, 'G');
    assert(pattern_value(seq!['.', '.', '.', '.']) == 0) by {
        assert(pattern_value(Seq::<char>::empty()) == 0);
        lemma_pattern_value_push(Seq::<char>::empty(), '.');
        lemma_pattern_value_push(seq!['.'], '.');
        assert(seq!['.'].push('.') =~= seq!['.', '.']);
        lemma_pattern_value_push(seq!['.', '.'], '.');
        assert(seq!['.', '.'].push('.') =~= seq!['.', '.', '.']);
        lemma_pattern_value_push(seq!['.', '.', '.'], '.');
        assert(seq!['.', '.', '.'].push('.') =~= seq!['.', '.', '.', '.']);
    }
    lemma_resolves(seq!['.', '.', '.', '.'], 4, 0, 'H');
    assert(pattern_value(seq!['.', '.']) == 0) by {
        assert(pattern_value(Seq::<char>::empty()) == 0);
        lemma_pattern_value_push(Seq::<char>::empty(), '.');
        lemma_pattern_value_push(seq!['.'], '.');
        assert(seq!['.'].push('.') =~= seq!['.', '.']);
    }
    lemma_resolves(seq!['.', '.'], 2, 0, 'I');
    assert(pattern_value(seq!['.', '-', '-', '-']) == 7) by {
        assert(pattern_value(Seq::<char>::empty()) == 0);
        lemma_pattern_value_push(Seq::<char>::empty(), '.');
        lemma_pattern_value_push(seq!['.'], '-');
        assert(seq!['.'].push('-') =~= seq!['.', '-']);
        lemma_pattern_value_push(seq!['.', '-'], '-');
        assert(seq!['.', '-'].push('-') =~= seq!['.', '-', '-']);
        lemma_pattern_value_push(seq!['.', '-', '-'], '-');
        assert(seq!['.', '-', '-'].push('-') =~= seq!['.', '-', '-', '-']);
    }
    lemma_resolves(seq!['.', '-', '-', '-'], 4, 7, 'J');
    assert(pattern_value(seq!['-', '.', '-']) == 5) by {
        assert(pattern_value(Seq::<char>::empty()) == 0);
        lemma_pattern_value_push(Seq::<char>::empty(), '-');
        lemma_pattern_value_push(seq!['-'], '.');
        assert(seq!['-'].push('.') =~= seq!['-', '.']);
        lemma_pattern_value_push(seq!['-', '.'], '-');
        assert(seq!['-', '.'].push('-') =~= seq!['-', '.', '-']);
    }
    lemma_resolves(seq!['-', '.', '-'], 3, 5, 'K');
    assert(pattern_value(seq!['.', '-', '.', '.']) == 4) by {
        assert(pattern_value(Seq::<char>::empty()) == 0);
        lemma_pattern_value_push(Seq::<char>::empty(), '.');
        lemma_pattern_value_push(seq!['.'], '-');
        assert(seq!['.'].push('-') =~= seq!['.', '-']);
        lemma_pattern_value_push(seq!['.', '-'], '.');
        assert(seq!['.', '-'].push('.') =~= seq!['.', '-', '.']);
        lemma_pattern_value_push(seq!['.', '-', '.'], '.');
        assert(seq!['.', '-', '.'].push('.') =~= seq!['.', '-', '.', '.']);
    }
    lemma_resolves(seq!['.', '-', '.', '.'], 4, 4, 'L');
    assert(pattern_value(seq!['-', '-']) == 3) by {
        assert(pattern_value(Seq::<char>::empty()) == 0);
        lemma_pattern_value_push(Seq::<char>::empty(), '-');
        lemma_pattern_value_push(seq!['-'], '-');
        assert(seq!['-'].push('-') =~= seq!['-', '-']);
    }
    lemma_resolves(seq!['-', '-'], 2, 3, 'M');
    assert(pattern_value(seq!['-', '.']) == 2) by {
        assert(pattern_value(Seq::<char>::empty()) == 0);
        lemma_pattern_value_push(Seq::<char>::empty(), '-');
        lemma_pattern_value_push(seq!['-'], '.');
        assert(seq!['-'].push('.') =~= seq!['-', '.']);
    }
    lemma_resolves(seq!['-', '.'], 2, 2, 'N');
    assert(pattern_value(seq!['-', '-', '-']) == 7) by {
        assert(pattern_value(Seq::<char>::empty()) == 0);
        lemma_pattern_value_push(Seq::<char>::empty(), '-');
        lemma_pattern_value_push(seq!['-'], '-');
        assert(seq!['-'].push('-') =~= seq!['-', '-']);
        lemma_pattern_value_push(seq!['-', '-'], '-');
        assert(seq!['-', '-'].push('-') =~= seq!['-', '-', '-']);
    }
    lemma_resolves(seq!['-', '-', '-'], 3, 7, 'O');
    assert(pattern_value(seq!['.', '-', '-', '.']) == 6) by {
        assert(pattern_value(Seq::<char>::empty()) == 0);
        lemma_pattern_value_push(Seq::<char>::empty(), '.');
        lemma_pattern_value_push(seq!['.'], '-');
        assert(seq!['.'].push('-') =~= seq!['.', '-']);
        lemma_pattern_value_push(seq!['.', '-'], '-');
        assert(seq!['.', '-'].push('-') =~= seq!['.', '-', '-']);
        lemma_pattern_value_push(seq!['.', '-', '-'], '.');
        assert(seq!['.', '-', '-'].push('.') =~= seq!['.', '-', '-', '.']);
    }
    lemma_resolves(seq!['.', '-', '-', '.'], 4, 6, 'P');
    assert(pattern_value(seq!['-', '-', '.', '-']) == 13) by {
        assert(pattern_value(Seq::<char>::empty()) == 0);
        lemma_pattern_value_push(Seq::<char>::empty(), '-');
        lemma_pattern_value_push(seq!['-'], '-');
        assert(seq!['-'].push('-') =~= seq!['-', '-']);
        lemma_pattern_value_push(seq!['-', '-'], '.');
        assert(seq!['-', '-'].push('.') =~= seq!['-', '-', '.']);
        lemma_pattern_value_push(seq!['-', '-', '.'], '-');
        assert(seq!['-', '-', '.'].push('-') =~= seq!['-', '-', '.', '-']);
    }
    lemma_resolves(seq!['-', '-', '.', '-'], 4, 13, 'Q');
    assert(pattern_value(seq!['.', '-', '.']) == 2) by {
        assert(pattern_value(Seq::<char>::empty()) == 0);
        lemma_pattern_value_push(Seq::<char>::empty(), '.');
        lemma_pattern_value_push(seq!['.'], '-');
        assert(seq!['.'].push('-') =~= seq!['.', '-']);
        lemma_pattern_value_push(seq!['.', '-'], '.');
        assert(seq!['.', '-'].push('.') =~= seq!['.', '-', '.']);
    }
    lemma_resolves(seq!['.', '-', '.'], 3, 2, 'R');
    assert(pattern_value(seq!['.', '.', '.']) == 0) by {
        assert(pattern_value(Seq::<char>::empty()) == 0);
        lemma_pattern_value_push(Seq::<char>::empty(), '.');
        lemma_pattern_value_push(seq!['.'], '.');
        assert(seq!['.'].push('.') =~= seq!['.', '.']);
        lemma_pattern_value_push(seq!['.', '.'], '.');
        assert(seq!['.', '.'].push('.') =~= seq!['.', '.', '.']);
    }
    lemma_resolves(seq!['.', '.', '.'], 3, 0, 'S');
    assert(pattern_value(seq!['-']) == 1) by {
        assert(pattern_value(Seq::<char>::empty()) == 0);
        lemma_pattern_value_push(Seq::<char>::empty(), '-');
    }
    lemma_resolves(seq!['-'], 1, 1, 'T');
    assert(pattern_value(seq!['.', '.', '-']) == 1) by {
        assert(pattern_value(Seq::<char>::empty()) == 0);
        lemma_pattern_value_push(Seq::<char>::empty(), '.');
        lemma_pattern_value_push(seq!['.'], '.');
        assert(seq!['.'].push('.') =~= seq!['.', '.']);
        lemma_pattern_value_push(seq!['.', '.'], '-');
        assert(seq!['.', '.'].push('-') =~= seq!['.', '.', '-']);
    }
    lemma_resolves(seq!['.', '.', '-'], 3, 1, 'U');
    assert(pattern_value(seq!['.', '.', '.', '-']) == 1) by {
        assert(pattern_value(Seq::<char>::empty()) == 0);
        lemma_pattern_value_push(Seq::<char>::empty(), '.');
        lemma_pattern_value_push(seq!['.'], '.');
        assert(seq!['.'].push('.') =~= seq!['.', '.']);
        lemma_pattern_value_push(seq!['.', '.'], '.');
        assert(seq!['.', '.'].push('.') =~= seq!['.', '.', '.']);
        lemma_pattern_value_push(seq!['.', '.', '.'], '-');
        assert(seq!['.', '.', '.'].push('-') =~= seq!['.', '.', '.', '-']);
    }
    lemma_resolves(seq!['.', '.', '.', '-'], 4, 1, 'V');
    assert(pattern_value(seq!['.', '-', '-']) == 3) by {
        assert(pattern_value(Seq::<char>::empty()) == 0);
        lemma_pattern_value_push(Seq::<char>::empty(), '.');
        lemma_pattern_value_push(seq!['.'], '-');
        assert(seq!['.'].push('-') =~= seq!['.', '-']);
        lemma_pattern_value_push(seq!['.', '-'], '-');
        assert(seq!['.', '-'].push('-') =~= seq!['.', '-', '-']);
    }
    lemma_resolves(seq!['.', '-', '-'], 3, 3, 'W');
    assert(pattern_value(seq!['-', '.', '.', '-']) == 9) by {
        assert(pattern_value(Seq::<char>::empty()) == 0);
        lemma_pattern_value_push(Seq::<char>::empty(), '-');
        lemma_pattern_value_push(seq!['-'], '.');
        assert(seq!['-'].push('.') =~= seq!['-', '.']);
        lemma_pattern_value_push(seq!['-', '.'], '.');
        assert(seq!['-', '.'].push('.') =~= seq!['-', '.', '.']);
        lemma_pattern_value_push(seq!['-', '.', '.'], '-');
        assert(seq!['-', '.', '.'].push('-') =~= seq!['-', '.', '.', '-']);
    }
    lemma_resolves(seq!['-', '.', '.', '-'], 4, 9, 'X');
    assert(pattern_value(seq!['-', '.', '-', '-']) == 11) by {
        assert(pattern_value(Seq::<char>::empty()) == 0);
        lemma_pattern_value_push(Seq::<char>::empty(), '-');
        lemma_pattern_value_push(seq!['-'], '.');
        assert(seq!['-'].push('.') =~= seq!['-', '.']);
        lemma_pattern_value_push(seq!['-', '.'], '-');
        assert(seq!['-', '.'].push('-') =~= seq!['-', '.', '-']);
        lemma_pattern_value_push(seq!['-', '.', '-'], '-');
        assert(seq!['-', '.', '-'].push('-') =~= seq!['-', '.', '-', '-']);
    }
    lemma_resolves(seq!['-', '.', '-', '-'], 4, 11, 'Y');
    assert(pattern_value(seq!['-', '-', '.', '.']) == 12) by {
        assert(pattern_value(Seq::<char>::empty()) == 0);
        lemma_pattern_value_push(Seq::<char>::empty(), '-');
        lemma_pattern_value_push(seq!['-'], '-');
        assert(seq!['-'].push('-') =~= seq!['-', '-']);
        lemma_pattern_value_push(seq!['-', '-'], '.');
        assert(seq!['-', '-'].push('.') =~= seq!['-', '-', '.']);
        lemma_pattern_value_push(seq!['-', '-', '.'], '.');
        assert(seq!['-', '-', '.'].push('.') =~= seq!['-', '-', '.', '.']);
    }
    lemma_resolves(seq!['-', '-', '.', '.'], 4, 12, 'Z');
}

/// The figures and punctuation of the international keying alphabet, each
/// written as its pattern of dots and dashes, resolve to that character.
pub proof fn lemma_morse_figures()
    ensures
        letter_of_pattern(seq!['-', '-', '-', '-', '-']) == Some('0'),
        letter_of_pattern(seq!['.', '-', '-', '-', '-']) == Some('1'),
        letter_of_pattern(seq!['.', '.', '-', '-', '-']) == Some('2'),
        letter_of_pattern(seq!['.', '.', '.', '-', '-']) == Some('3'),
        letter_of_pattern(seq!['.', '.', '.', '.', '-']) == Some('4'),
        letter_of_pattern(seq!['.', '.', '.', '.', '.']) == Some('5'),
        letter_of_pattern(seq!['-', '.', '.', '.', '.']) == Some('6'),
        letter_of_pattern(seq!['-', '-', '.', '.', '.']) == Some('7'),
        letter_of_pattern(seq!['-', '-', '-', '.', '.']) == Some('8'),
        letter_of_pattern(seq!['-', '-', '-', '-', '.']) == Some('9'),
        letter_of_pattern(seq!['.', '-', '.', '-', '.', '-']) == Some('.'),
        letter_of_pattern(seq!['-', '-', '.', '.', '-', '-']) == Some(','),
        letter_of_pattern(seq!['.', '.', '-', '-', '.', '.']) == Some('?'),
        letter_of_pattern(seq!['.', '-', '-', '-', '-', '.']) == Some('\''),
        letter_of_pattern(seq!['-', '.', '-', '.', '-', '-']) == Some('!'),
        letter_of_pattern(seq!['-', '.', '.', '-', '.']) == Some('/'),
        letter_of_pattern(seq!['-', '.', '-', '-', '.']) == Some('('),
        letter_of_pattern(seq!['-', '.', '-', '-', '.', '-']) == Some(')'),
        letter_of_pattern(seq!['.', '-', '.', '.', '.']) == Some('&'),
        letter_of_pattern(seq!['-', '-', '-', '.', '.', '.']) == Some(':'),
        letter_of_pattern(seq!['-', '.', '-', '.', '-', '.']) == Some(';'),
        letter_of_pattern(seq!['-', '.', '.', '.', '-']) == Some('='),
        letter_of_pattern(seq!['.', '-', '.', '-', '.']) == Some('+'),
        letter_of_pattern(seq!['-', '.', '.', '.', '.', '-']) == Some('-'),
        letter_of_pattern(seq!['.', '.', '-', '-', '.', '-']) == Some('_'),
        letter_of_pattern(seq!['.', '-', '.', '.', '-', '.']) == Some('"'),
        letter_of_pattern(seq!['.', '.', '.', '-', '.', '.', '-']) == Some('$'),
        letter_of_pattern(seq!['.', '-', '-', '.', '-', '.']) == Some('@'),
{
    assert(pattern_value(seq!['-', '-', '-', '-', '-']) == 31) by {
        assert(pattern_value(Seq::<char>::empty()) == 0);
        lemma_pattern_value_push(Seq::<char>::empty(), '-');
        lemma_pattern_value_push(seq!['-'], '-');
        assert(seq!['-'].push('-') =~= seq!['-', '-']);
        lemma_pattern_value_push(seq!['-', '-'], '-');
        assert(seq!['-', '-'].push('-') =~= seq!['-', '-', '-']);
        lemma_pattern_value_push(seq!['-', '-', '-'], '-');
        assert(seq!['-', '-', '-'].push('-') =~= seq!['-', '-', '-', '-']);
        lemma_pattern_value_push(seq!['-', '-', '-', '-'], '-');
        assert(seq!['-', '-', '-', '-'].push('-') =~= seq!['-', '-', '-', '-', '-']);
    }
    lemma_resolves(seq!['-', '-', '-', '-', '-'], 5, 31, '0');
    assert(pattern_value(seq!['.', '-', '-', '-', '-']) == 15) by {
        assert(pattern_value(Seq::<char>::empty()) == 0);
        lemma_pattern_value_push(Seq::<char>::empty(), '.');
        lemma_pattern_value_push(seq!['.'], '-');
        assert(seq!['.'].push('-') =~= seq!['.', '-']);
        lemma_pattern_value_push(seq!['.', '-'], '-');
        assert(seq!['.', '-'].push('-') =~= seq!['.', '-', '-']);
        lemma_pattern_value_push(seq!['.', '-', '-'], '-');
        assert(seq!['.', '-', '-'].push('-') =~= seq!['.', '-', '-', '-']);
        lemma_pattern_value_push(seq!['.', '-', '-', '-'], '-');
        assert(seq!['.', '-', '-', '-'].push('-') =~= seq!['.', '-', '-', '-', '-']);
    }
    lemma_resolves(seq!['.', '-', '-', '-', '-'], 5, 15, '1');
    assert(pattern_value(seq!['.', '.', '-', '-', '-']) == 7) by {
        assert(pattern_value(Seq::<char>::empty()) == 0);
        lemma_pattern_value_push(Seq::<char>::empty(), '.');
        lemma_pattern_value_push(seq!['.'], '.');
        assert(seq!['.'].push('.') =~= seq!['.', '.']);
        lemma_pattern_value_push(seq!['.', '.'], '-');
        assert(seq!['.', '.'].push('-') =~= seq!['.', '.', '-']);
        lemma_pattern_value_push(seq!['.', '.', '-'], '-');
        assert(seq!['.', '.', '-'].push('-') =~= seq!['.', '.', '-', '-']);
        lemma_pattern_value_push(seq!['.', '.', '-', '-'], '-');
        assert(seq!['.', '.', '-', '-'].push('-') =~= seq!['.', '.', '-', '-', '-']);
    }
    lemma_resolves(seq!['.', '.', '-', '-', '-'], 5, 7, '2');
    assert(pattern_value(seq!['.', '.', '.', '-', '-']) == 3) by {
        assert(pattern_value(Seq::<char>::empty()) == 0);
        lemma_pattern_value_push(Seq::<char>::empty(), '.');
        lemma_pattern_value_push(seq!['.'], '.');
        assert(seq!['.'].push('.') =~= seq!['.', '.']);
        lemma_pattern_value_push(seq!['.', '.'], '.');
        assert(seq!['.', '.'].push('.') =~= seq!['.', '.', '.']);
        lemma_pattern_value_push(seq!['.', '.', '.'], '-');
        assert(seq!['.', '.', '.'].push('-') =~= seq!['.', '.', '.', '-']);
        lemma_pattern_value_push(seq!['.', '.', '.', '-'], '-');
        assert(seq!['.', '.', '.', '-'].push('-') =~= seq!['.', '.', '.', '-', '-']);
    }
    lemma_resolves(seq!['.', '.', '.', '-', '-'], 5, 3, '3');
    assert(pattern_value(seq!['.', '.', '.', '.', '-']) == 1) by {
        assert(pattern_value(Seq::<char>::empty()) == 0);
        lemma_pattern_value_push(Seq::<char>::empty(), '.');
        lemma_pattern_value_push(seq!['.'], '.');
        assert(seq!['.'].push('.') =~= seq!['.', '.']);
        lemma_pattern_value_push(seq!['.', '.'], '.');
        assert(seq!['.', '.'].push('.') =~= seq!['.', '.', '.']);
        lemma_pattern_value_push(seq!['.', '.', '.'], '.');
        assert(seq!['.', '.', '.'].push('.') =~= seq!['.', '.', '.', '.']);
        lemma_pattern_value_push(seq!['.', '.', '.', '.'], '-');
        assert(seq!['.', '.', '.', '.'].push('-') =~= seq!['.', '.', '.', '.', '-']);
    }
    lemma_resolves(seq!['.', '.', '.', '.', '-'], 5, 1, '4');
    assert(pattern_value(seq!['.', '.', '.', '.', '.']) == 0) by {
        assert(pattern_value(Seq::<char>::empty()) == 0);
        lemma_pattern_value_push(Seq::<char>::empty(), '.');
        lemma_pattern_value_push(seq!['.'], '.');
        assert(seq!['.'].push('.') =~= seq!['.', '.']);
        lemma_pattern_value_push(seq!['.', '.'], '.');
        assert(seq!['.', '.'].push('.') =~= seq!['.', '.', '.']);
        lemma_pattern_value_push(seq!['.', '.', '.'], '.');
        assert(seq!['.', '.', '.'].push('.') =~= seq!['.', '.', '.', '.']);
        lemma_pattern_value_push(seq!['.', '.', '.', '.'], '.');
        assert(seq!['.', '.', '.', '.'].push('.') =~= seq!['.', '.', '.', '.', '.']);
    }
    lemma_resolves(seq!['.', '.', '.', '.', '.'], 5, 0, '5');
    assert(pattern_value(seq!['-', '.', '.', '.', '.']) == 16) by {
        assert(pattern_value(Seq::<char>::empty()) == 0);
        lemma_pattern_value_push(Seq::<char>::empty(), '-');
        lemma_pattern_value_push(seq!['-'], '.');
        assert(seq!['-'].push('.') =~= seq!['-', '.']);
        lemma_pattern_value_push(seq!['-', '.'], '.');
        assert(seq!['-', '.'].push('.') =~= seq!['-', '.', '.']);
        lemma_pattern_value_push(seq!['-', '.', '.'], '.');
        assert(seq!['-', '.', '.'].push('.') =~= seq!['-', '.', '.', '.']);
        lemma_pattern_value_push(seq!['-', '.', '.', '.'], '.');
        assert(seq!['-', '.', '.', '.'].push('.') =~= seq!['-', '.', '.', '.', '.']);
    }
    lemma_resolves(seq!['-', '.', '.', '.', '.'], 5, 16, '6');
    assert(pattern_value(seq!['-', '-', '.', '.', '.']) == 24) by {
        assert(pattern_value(Seq::<char>::empty()) == 0);
        lemma_pattern_value_push(Seq::<char>::empty(), '-');
        lemma_pattern_value_push(seq!['-'], '-');
        assert(seq!['-'].push('-') =~= seq!['-', '-']);
        lemma_pattern_value_push(seq!['-', '-'], '.');
        assert(seq!['-', '-'].push('.') =~= seq!['-', '-', '.']);
        lemma_pattern_value_push(seq!['-', '-', '.'], '.');
        assert(seq!['-', '-', '.'].push('.') =~= seq!['-', '-', '.', '.']);
        lemma_pattern_value_push(seq!['-', '-', '.', '.'], '.');
        assert(seq!['-', '-', '.', '.'].push('.') =~= seq!['-', '-', '.', '.', '.']);
    }
    lemma_resolves(seq!['-', '-', '.', '.', '.'], 5, 24, '7');
    assert(pattern_value(seq!['-', '-', '-', '.', '.']) == 28) by {
        assert(pattern_value(Seq::<char>::empty()) == 0);
        lemma_pattern_value_push(Seq::<char>::empty(), '-');
        lemma_pattern_value_push(seq!['-'], '-');
        assert(seq!['-'].push('-') =~= seq!['-', '-']);
        lemma_pattern_value_push(seq!['-', '-'], '-');
        assert(seq!['-', '-'].push('-') =~= seq!['-', '-', '-']);
        lemma_pattern_value_push(seq!['-', '-', '-'], '.');
        assert(seq!['-', '-', '-'].push('.') =~= seq!['-', '-', '-', '.']);
        lemma_pattern_value_push(seq!['-', '-', '-', '.'], '.');
        assert(seq!['-', '-', '-', '.'].push('.') =~= seq!['-', '-', '-', '.', '.']);
    }
    lemma_resolves(seq!['-', '-', '-', '.', '.'], 5, 28, '8');
    assert(pattern_value(seq!['-', '-', '-', '-', '.']) == 30) by {
        assert(pattern_value(Seq::<char>::empty()) == 0);
        lemma_pattern_value_push(Seq::<char>::empty(), '-');
        lemma_pattern_value_push(seq!['-'], '-');
        assert(seq!['-'].push('-') =~= seq!['-', '-']);
        lemma_pattern_value_push(seq!['-', '-'], '-');
        assert(seq!['-', '-'].push('-') =~= seq!['-', '-', '-']);
        lemma_pattern_value_push(seq!['-', '-', '-'], '-');
        assert(seq!['-', '-', '-'].push('-') =~= seq!['-', '-', '-', '-']);
        lemma_pattern_value_push(seq!['-', '-', '-', '-'], '.');
        assert(seq!['-', '-', '-', '-'].push('.') =~= seq!['-', '-', '-', '-', '.']);
    }
    lemma_resolves(seq!['-', '-', '-', '-', '.'], 5, 30, '9');
    assert(pattern_value(seq!['.', '-', '.', '-', '.', '-']) == 21) by {
        assert(pattern_value(Seq::<char>::empty()) == 0);
        lemma_pattern_value_push(Seq::<char>::empty(), '.');
        lemma_pattern_value_push(seq!['.'], '-');
        assert(seq!['.'].push('-') =~= seq!['.', '-']);
        lemma_pattern_value_push(seq!['.', '-'], '.');
        assert(seq!['.', '-'].push('.') =~= seq!['.', '-', '.']);
        lemma_pattern_value_push(seq!['.', '-', '.'], '-');
        assert(seq!['.', '-', '.'].push('-') =~= seq!['.', '-', '.', '-']);
        lemma_pattern_value_push(seq!['.', '-', '.', '-'], '.');
        assert(seq!['.', '-', '.', '-'].push('.') =~= seq!['.', '-', '.', '-', '.']);
        lemma_pattern_value_push(seq!['.', '-', '.', '-', '.'], '-');
        assert(seq!['.', '-', '.', '-', '.'].push('-') =~= seq!['.', '-', '.', '-', '.', '-']);
    }
    lemma_resolves(seq!['.', '-', '.', '-', '.', '-'], 6, 21, '.');
    assert(pattern_value(seq!['-', '-', '.', '.', '-', '-']) == 51) by {
        assert(pattern_value(Seq::<char>::empty()) == 0);
        lemma_pattern_value_push(Seq::<char>::empty(), '-');
        lemma_pattern_value_push(seq!['-'], '-');
        assert(seq!['-'].push('-') =~= seq!['-', '-']);
        lemma_pattern_value_push(seq!['-', '-'], '.');
        assert(seq!['-', '-'].push('.') =~= seq!['-', '-', '.']);
        lemma_pattern_value_push(seq!['-', '-', '.'], '.');
        assert(seq!['-', '-', '.'].push('.') =~= seq!['-', '-', '.', '.']);
        lemma_pattern_value_push(seq!['-', '-', '.', '.'], '-');
        assert(seq!['-', '-', '.', '.'].push('-') =~= seq!['-', '-', '.', '.', '-']);
        lemma_pattern_value_push(seq!['-', '-', '.', '.', '-'], '-');
        assert(seq!['-', '-', '.', '.', '-'].push('-') =~= seq!['-', '-', '.', '.', '-', '-']);
    }
    lemma_resolves(seq!['-', '-', '.', '.', '-', '-'], 6, 51, ',');
    assert(pattern_value(seq!['.', '.', '-', '-', '.', '.']) == 12) by {
        assert(pattern_value(Seq::<char>::empty()) == 0);
        lemma_pattern_value_push(Seq::<char>::empty(), '.');
        lemma_pattern_value_push(seq!['.'], '.');
        assert(seq!['.'].push('.') =~= seq!['.', '.']);
        lemma_pattern_value_push(seq!['.', '.'], '-');
        assert(seq!['.', '.'].push('-') =~= seq!['.', '.', '-']);
        lemma_pattern_value_push(seq!['.', '.', '-'], '-');
        assert(seq!['.', '.', '-'].push('-') =~= seq!['.', '.', '-', '-']);
        lemma_pattern_value_push(seq!['.', '.', '-', '-'], '.');
        assert(seq!['.', '.', '-', '-'].push('.') =~= seq!['.', '.', '-', '-', '.']);
        lemma_pattern_value_push(seq!['.', '.', '-', '-', '.'], '.');
        assert(seq!['.', '.', '-', '-', '.'].push('.') =~= seq!['.', '.', '-', '-', '.', '.']);
    }
    lemma_resolves(seq!['.', '.', '-', '-', '.', '.'], 6, 12, '?');
    assert(pattern_value(seq!['.', '-', '-', '-', '-', '.']) == 30) by {
        assert(pattern_value(Seq::<char>::empty()) == 0);
        lemma_pattern_value_push(Seq::<char>::empty(), '.');
        lemma_pattern_value_push(seq!['.'], '-');
        assert(seq!['.'].push('-') =~= seq!['.', '-']);
        lemma_pattern_value_push(seq!['.', '-'], '-');
        assert(seq!['.', '-'].push('-') =~= seq!['.', '-', '-']);
        lemma_pattern_value_push(seq!['.', '-', '-'], '-');
        assert(seq!['.', '-', '-'].push('-') =~= seq!['.', '-', '-', '-']);
        lemma_pattern_value_push(seq!['.', '-', '-', '-'], '-');
        assert(seq!['.', '-', '-', '-'].push('-') =~= seq!['.', '-', '-', '-', '-']);
        lemma_pattern_value_push(seq!['.', '-', '-', '-', '-'], '.');
        assert(seq!['.', '-', '-', '-', '-'].push('.') =~= seq!['.', '-', '-', '-', '-', '.']);
    }
    lemma_resolves(seq!['.', '-', '-', '-', '-', '.'], 6, 30, '\'');
    assert(pattern_value(seq!['-', '.', '-', '.', '-', '-']) == 43) by {
        assert(pattern_value(Seq::<char>::empty()) == 0);
        lemma_pattern_value_push(Seq::<char>::empty(), '-');
        lemma_pattern_value_push(seq!['-'], '.');
        assert(seq!['-'].push('.') =~= seq!['-', '.']);
        lemma_pattern_value_push(seq!['-', '.'], '-');
        assert(seq!['-', '.'].push('-') =~= seq!['-', '.', '-']);
        lemma_pattern_value_push(seq!['-', '.', '-'], '.');
        assert(seq!['-', '.', '-'].push('.') =~= seq!['-', '.', '-', '.']);
        lemma_pattern_value_push(seq!['-', '.', '-', '.'], '-');
        assert(seq!['-', '.', '-', '.'].push('-') =~= seq!['-', '.', '-', '.', '-']);
        lemma_pattern_value_push(seq!['-', '.', '-', '.', '-'], '-');
        assert(seq!['-', '.', '-', '.', '-'].push('-') =~= seq!['-', '.', '-', '.', '-', '-']);
    }
    lemma_resolves(seq!['-', '.', '-', '.', '-', '-'], 6, 43, '!');
    assert(pattern_value(seq!['-', '.', '.', '-', '.']) == 18) by {
        assert(pattern_value(Seq::<char>::empty()) == 0);
        lemma_pattern_value_push(Seq::<char>::empty(), '-');
        lemma_pattern_value_push(seq!['-'], '.');
        assert(seq!['-'].push('.') =~= seq!['-', '.']);
        lemma_pattern_value_push(seq!['-', '.'], '.');
        assert(seq!['-', '.'].push('.') =~= seq!['-', '.', '.']);
        lemma_pattern_value_push(seq!['-', '.', '.'], '-');
        assert(seq!['-', '.', '.'].push('-') =~= seq!['-', '.', '.', '-']);
        lemma_pattern_value_push(seq!['-', '.', '.', '-'], '.');
        assert(seq!['-', '.', '.', '-'].push('.') =~= seq!['-', '.', '.', '-', '.']);
    }
    lemma_resolves(seq!['-', '.', '.', '-', '.'], 5, 18, '/');
    assert(pattern_value(seq!['-', '.', '-', '-', '.']) == 22) by {
        assert(pattern_value(Seq::<char>::empty()) == 0);
        lemma_pattern_value_push(Seq::<char>::empty(), '-');
        lemma_pattern_value_push(seq!['-'], '.');
        assert(seq!['-'].push('.') =~= seq!['-', '.']);
        lemma_pattern_value_push(seq!['-', '.'], '-');
        assert(seq!['-', '.'].push('-') =~= seq!['-', '.', '-']);
        lemma_pattern_value_push(seq!['-', '.', '-'], '-');
        assert(seq!['-', '.', '-'].push('-') =~= seq!['-', '.', '-', '-']);
        lemma_pattern_value_push(seq!['-', '.', '-', '-'], '.');
        assert(seq!['-', '.', '-', '-'].push('.') =~= seq!['-', '.', '-', '-', '.']);
    }
    lemma_resolves(seq!['-', '.', '-', '-', '.'], 5, 22, '(');
    assert(pattern_value(seq!['-', '.', '-', '-', '.', '-']) == 45) by {
        assert(pattern_value(Seq::<char>::empty()) == 0);
        lemma_pattern_value_push(Seq::<char>::empty(), '-');
        lemma_pattern_value_push(seq!['-'], '.');
        assert(seq!['-'].push('.') =~= seq!['-', '.']);
        lemma_pattern_value_push(seq!['-', '.'], '-');
        assert(seq!['-', '.'].push('-') =~= seq!['-', '.', '-']);
        lemma_pattern_value_push(seq!['-', '.', '-'], '-');
        assert(seq!['-', '.', '-'].push('-') =~= seq!['-', '.', '-', '-']);
        lemma_pattern_value_push(seq!['-', '.', '-', '-'], '.');
        assert(seq!['-', '.', '-', '-'].push('.') =~= seq!['-', '.', '-', '-', '.']);
        lemma_pattern_value_push(seq!['-', '.', '-', '-', '.'], '-');
        assert(seq!['-', '.', '-', '-', '.'].push('-') =~= seq!['-', '.', '-', '-', '.', '-']);
    }
    lemma_resolves(seq!['-', '.', '-', '-', '.', '-'], 6, 45, ')');
    assert(pattern_value(seq!['.', '-', '.', '.', '.']) == 8) by {
        assert(pattern_value(Seq::<char>::empty()) == 0);
        lemma_pattern_value_push(Seq::<char>::empty(), '.');
        lemma_pattern_value_push(seq!['.'], '-');
        assert(seq!['.'].push('-') =~= seq!['.', '-']);
        lemma_pattern_value_push(seq!['.', '-'], '.');
        assert(seq!['.', '-'].push('.') =~= seq!['.', '-', '.']);
        lemma_pattern_value_push(seq!['.', '-', '.'], '.');
        assert(seq!['.', '-', '.'].push('.') =~= seq!['.', '-', '.', '.']);
        lemma_pattern_value_push(seq!['.', '-', '.', '.'], '.');
        assert(seq!['.', '-', '.', '.'].push('.') =~= seq!['.', '-', '.', '.', '.']);
    }
    lemma_resolves(seq!['.', '-', '.', '.', '.'], 5, 8, '&');
    assert(pattern_value(seq!['-', '-', '-', '.', '.', '.']) == 56) by {
        assert(pattern_value(Seq::<char>::empty()) == 0);
        lemma_pattern_value_push(Seq::<char>::empty(), '-');
        lemma_pattern_value_push(seq!['-'], '-');
        assert(seq!['-'].push('-') =~= seq!['-', '-']);
        lemma_pattern_value_push(seq!['-', '-'], '-');
        assert(seq!['-', '-'].push('-') =~= seq!['-', '-', '-']);
        lemma_pattern_value_push(seq!['-', '-', '-'], '.');
        assert(seq!['-', '-', '-'].push('.') =~= seq!['-', '-', '-', '.']);
        lemma_pattern_value_push(seq!['-', '-', '-', '.'], '.');
        assert(seq!['-', '-', '-', '.'].push('.') =~= seq!['-', '-', '-', '.', '.']);
        lemma_pattern_value_push(seq!['-', '-', '-', '.', '.'], '.');
        assert(seq!['-', '-', '-', '.', '.'].push('.') =~= seq!['-', '-', '-', '.', '.', '.']);
    }
    lemma_resolves(seq!['-', '-', '-', '.', '.', '.'], 6, 56, ':');
    assert(pattern_value(seq!['-', '.', '-', '.', '-', '.']) == 42) by {
        assert(pattern_value(Seq::<char>::empty()) == 0);
        lemma_pattern_value_push(Seq::<char>::empty(), '-');
        lemma_pattern_value_push(seq!['-'], '.');
        assert(seq!['-'].push('.') =~= seq!['-', '.']);
        lemma_pattern_value_push(seq!['-', '.'], '-');
        assert(seq!['-', '.'].push('-') =~= seq!['-', '.', '-']);
        lemma_pattern_value_push(seq!['-', '.', '-'], '.');
        assert(seq!['-', '.', '-'].push('.') =~= seq!['-', '.', '-', '.']);
        lemma_pattern_value_push(seq!['-', '.', '-', '.'], '-');
        assert(seq!['-', '.', '-', '.'].push('-') =~= seq!['-', '.', '-', '.', '-']);
        lemma_pattern_value_push(seq!['-', '.', '-', '.', '-'], '.');
        assert(seq!['-', '.', '-', '.', '-'].push('.') =~= seq!['-', '.', '-', '.', '-', '.']);
    }
    lemma_resolves(seq!['-', '.', '-', '.', '-', '.'], 6, 42, ';');
    assert(pattern_value(seq!['-', '.', '.', '.', '-']) == 17) by {
        assert(pattern_value(Seq::<char>::empty()) == 0);
        lemma_pattern_value_push(Seq::<char>::empty(), '-');
        lemma_pattern_value_push(seq!['-'], '.');
        assert(seq!['-'].push('.') =~= seq!['-', '.']);
        lemma_pattern_value_push(seq!['-', '.'], '.');
        assert(seq!['-', '.'].push('.') =~= seq!['-', '.', '.']);
        lemma_pattern_value_push(seq!['-', '.', '.'], '.');
        assert(seq!['-', '.', '.'].push('.') =~= seq!['-', '.', '.', '.']);
        lemma_pattern_value_push(seq!['-', '.', '.', '.'], '-');
        assert(seq!['-', '.', '.', '.'].push('-') =~= seq!['-', '.', '.', '.', '-']);
    }
    lemma_resolves(seq!['-', '.', '.', '.', '-'], 5, 17, '=');
    assert(pattern_value(seq!['.', '-', '.', '-', '.']) == 10) by {
        assert(pattern_value(Seq::<char>::empty()) == 0);
        lemma_pattern_value_push(Seq::<char>::empty(), '.');
        lemma_pattern_value_push(seq!['.'], '-');
        assert(seq!['.'].push('-') =~= seq!['.', '-']);
        lemma_pattern_value_push(seq!['.', '-'], '.');
        assert(seq!['.', '-'].push('.') =~= seq!['.', '-', '.']);
        lemma_pattern_value_push(seq!['.', '-', '.'], '-');
        assert(seq!['.', '-', '.'].push('-') =~= seq!['.', '-', '.', '-']);
        lemma_pattern_value_push(seq!['.', '-', '.', '-'], '.');
        assert(seq!['.', '-', '.', '-'].push('.') =~= seq!['.', '-', '.', '-', '.']);
    }
    lemma_resolves(seq!['.', '-', '.', '-', '.'], 5, 10, '+');
    assert(pattern_value(seq!['-', '.', '.', '.', '.', '-']) == 33) by {
        assert(pattern_value(Seq::<char>::empty()) == 0);
        lemma_pattern_value_push(Seq::<char>::empty(), '-');
        lemma_pattern_value_push(seq!['-'], '.');
        assert(seq!['-'].push('.') =~= seq!['-', '.']);
        lemma_pattern_value_push(seq!['-', '.'], '.');
        assert(seq!['-', '.'].push('.') =~= seq!['-', '.', '.']);
        lemma_pattern_value_push(seq!['-', '.', '.'], '.');
        assert(seq!['-', '.', '.'].push('.') =~= seq!['-', '.', '.', '.']);
        lemma_pattern_value_push(seq!['-', '.', '.', '.'], '.');
        assert(seq!['-', '.', '.', '.'].push('.') =~= seq!['-', '.', '.', '.', '.']);
        lemma_pattern_value_push(seq!['-', '.', '.', '.', '.'], '-');
        assert(seq!['-', '.', '.', '.', '.'].push('-') =~= seq!['-', '.', '.', '.', '.', '-']);
    }
    lemma_resolves(seq!['-', '.', '.', '.', '.', '-'], 6, 33, '-');
    assert(pattern_value(seq!['.', '.', '-', '-', '.', '-']) == 13) by {
        assert(pattern_value(Seq::<char>::empty()) == 0);
        lemma_pattern_value_push(Seq::<char>::empty(), '.');
        lemma_pattern_value_push(seq!['.'], '.');
        assert(seq!['.'].push('.') =~= seq!['.', '.']);
        lemma_pattern_value_push(seq!['.', '.'], '-');
        assert(seq!['.', '.'].push('-') =~= seq!['.', '.', '-']);
        lemma_pattern_value_push(seq!['.', '.', '-'], '-');
        assert(seq!['.', '.', '-'].push('-') =~= seq!['.', '.', '-', '-']);
        lemma_pattern_value_push(seq!['.', '.', '-', '-'], '.');
        assert(seq!['.', '.', '-', '-'].push('.') =~= seq!['.', '.', '-', '-', '.']);
        lemma_pattern_value_push(seq!['.', '.', '-', '-', '.'], '-');
        assert(seq!['.', '.', '-', '-', '.'].push('-') =~= seq!['.', '.', '-', '-', '.', '-']);
    }
    lemma_resolves(seq!['.', '.', '-', '-', '.', '-'], 6, 13, '_');
    assert(pattern_value(seq!['.', '-', '.', '.', '-', '.']) == 18) by {
        assert(pattern_value(Seq::<char>::empty()) == 0);
        lemma_pattern_value_push(Seq::<char>::empty(), '.');
        lemma_pattern_value_push(seq!['.'], '-');
        assert(seq!['.'].push('-') =~= seq!['.', '-']);
        lemma_pattern_value_push(seq!['.', '-'], '.');
        assert(seq!['.', '-'].push('.') =~= seq!['.', '-', '.']);
        lemma_pattern_value_push(seq!['.', '-', '.'], '.');
        assert(seq!['.', '-', '.'].push('.') =~= seq!['.', '-', '.', '.']);
        lemma_pattern_value_push(seq!['.', '-', '.', '.'], '-');
        assert(seq!['.', '-', '.', '.'].push('-') =~= seq!['.', '-', '.', '.', '-']);
        lemma_pattern_value_push(seq!['.', '-', '.', '.', '-'], '.');
        assert(seq!['.', '-', '.', '.', '-'].push('.') =~= seq!['.', '-', '.', '.', '-', '.']);
    }
    lemma_resolves(seq!['.', '-', '.', '.', '-', '.'], 6, 18, '"');
    assert(pattern_value(seq!['.', '.', '.', '-', '.', '.', '-']) == 9) by {
        assert(pattern_value(Seq::<char>::empty()) == 0);
        lemma_pattern_value_push(Seq::<char>::empty(), '.');
        lemma_pattern_value_push(seq!['.'], '.');
        assert(seq!['.'].push('.') =~= seq!['.', '.']);
        lemma_pattern_value_push(seq!['.', '.'], '.');
        assert(seq!['.', '.'].push('.') =~= seq!['.', '.', '.']);
        lemma_pattern_value_push(seq!['.', '.', '.'], '-');
        assert(seq!['.', '.', '.'].push('-') =~= seq!['.', '.', '.', '-']);
        lemma_pattern_value_push(seq!['.', '.', '.', '-'], '.');
        assert(seq!['.', '.', '.', '-'].push('.') =~= seq!['.', '.', '.', '-', '.']);
        lemma_pattern_value_push(seq!['.', '.', '.', '-', '.'], '.');
        assert(seq!['.', '.', '.', '-', '.'].push('.') =~= seq!['.', '.', '.', '-', '.', '.']);
        lemma_pattern_value_push(seq!['.', '.', '.', '-', '.', '.'], '-');
        assert(seq!['.', '.', '.', '-', '.', '.'].push('-') =~= seq!['.', '.', '.', '-', '.', '.', '-']);
    }
    lemma_resolves(seq!['.', '.', '.', '-', '.', '.', '-'], 7, 9, '$');
    assert(pattern_value(seq!['.', '-', '-', '.', '-', '.']) == 26) by {
        assert(pattern_value(Seq::<char>::empty()) == 0);
        lemma_pattern_value_push(Seq::<char>::empty(), '.');
        lemma_pattern_value_push(seq!['.'], '-');
        assert(seq!['.'].push('-') =~= seq!['.', '-']);
        lemma_pattern_value_push(seq!['.', '-'], '-');
        assert(seq!['.', '-'].push('-') =~= seq!['.', '-', '-']);
        lemma_pattern_value_push(seq!['.', '-', '-'], '.');
        assert(seq!['.', '-', '-'].push('.') =~= seq!['.', '-', '-', '.']);
        lemma_pattern_value_push(seq!['.', '-', '-', '.'], '-');
        assert(seq!['.', '-', '-', '.'].push('-') =~= seq!['.', '-', '-', '.', '-']);
        lemma_pattern_value_push(seq!['.', '-', '-', '.', '-'], '.');
        assert(seq!['.', '-', '-', '.', '-'].push('.') =~= seq!['.', '-', '-', '.', '-', '.']);
    }
    lemma_resolves(seq!['.', '-', '-', '.', '-', '.'], 6, 26, '@');
}

/// Length and value of the pattern that stands for a character.
spec fn code_of(c: char) -> (nat, nat) {
    if c == 'A' {
        (2nat, 1nat)
    } else if c == 'B' {
        (4nat, 8nat)
    } else if c == 'C' {
        (4nat, 10nat)
    } else if c == 'D' {
        (3nat, 4nat)
    } else if c == 'E' {
        (1nat, 0nat)
    } else if c == 'F' {
        (4nat, 2nat)
    } else if c == 'G' {
        (3nat, 6nat)
    } else if c == 'H' {
        (4nat, 0nat)
    } else if c == 'I' {
        (2nat, 0nat)
    } else if c == 'J' {
        (4nat, 7nat)
    } else if c == 'K' {
        (3nat, 5nat)
    } else if c == 'L' {
        (4nat, 4nat)
    } else if c == 'M' {
        (2nat, 3nat)
    } else if c == 'N' {
        (2nat, 2nat)
    } else if c == 'O' {
        (3nat, 7nat)
    } else if c == 'P' {
        (4nat, 6nat)
    } else if c == 'Q' {
        (4nat, 13nat)
    } else if c == 'R' {
        (3nat, 2nat)
    } else if c == 'S' {
        (3nat, 0nat)
    } else if c == 'T' {
        (1nat, 1nat)
    } else if c == 'U' {
        (3nat, 1nat)
    } else if c == 'V' {
        (4nat, 1nat)
    } else if c == 'W' {
        (3nat, 3nat)
    } else if c == 'X' {
        (4nat, 9nat)
    } else if c == 'Y' {
        (4nat, 11nat)
    } else if c == 'Z' {
        (4nat, 12nat)
    } else if c == '0' {
        (5nat, 31nat)
    } else if c == '1' {
        (5nat, 15nat)
    } else if c == '2' {
        (5nat, 7nat)
    } else if c == '3' {
        (5nat, 3nat)
    } else if c == '4' {
        (5nat, 1nat)
    } else if c == '5' {
        (5nat, 0nat)
    } else if c == '6' {
        (5nat, 16nat)
    } else if c == '7' {
        (5nat, 24nat)
    } else if c == '8' {
        (5nat, 28nat)
    } else if c == '9' {
        (5nat, 30nat)
    } else if c == '.' {
        (6nat, 21nat)
    } else if c == ',' {
        (6nat, 51nat)
    } else if c == '?' {
        (6nat, 12nat)
    } else if c == '\'' {
        (6nat, 30nat)
    } else if c == '!' {
        (6nat, 43nat)
    } else if c == '/' {
        (5nat, 18nat)
    } else if c == '(' {
        (5nat, 22nat)
    } else if c == ')' {
        (6nat, 45nat)
    } else if c == '&' {
        (5nat, 8nat)
    } else if c == ':' {
        (6nat, 56nat)
    } else if c == ';' {
        (6nat, 42nat)
    } else if c == '=' {
        (5nat, 17nat)
    } else if c == '+' {
        (5nat, 10nat)
    } else if c == '-' {
        (6nat, 33nat)
    } else if c == '_' {
        (6nat, 13nat)
    } else if c == '"' {
        (6nat, 18nat)
    } else if c == '$' {
        (7nat, 9nat)
    } else if c == '@' {
        (6nat, 26nat)
    } else {
        (0nat, 0nat)
    }
}

/// A character comes from one length and value only.
proof fn lemma_letter_code(n: nat, v: nat)
    requires
        morse_letter(n, v) is Some,
    ensures
        code_of(morse_letter(n, v)->0) == (n, v),
{
}

/// Patterns of elements of one length and one value are the same pattern.
proof fn lemma_pattern_determined(p: Seq<char>, q: Seq<char>)
    requires
        p.len() == q.len(),
        pattern_value(p) == pattern_value(q),
        forall|i: int| 0 <= i < p.len() ==> is_element(#[trigger] p[i]),
        forall|i: int| 0 <= i < q.len() ==> is_element(#[trigger] q[i]),
    ensures
        p == q,
    decreases p.len(),
{
    if p.len() > 0 {
        let p1 = p.drop_last();
        let q1 = q.drop_last();
        assert(is_element(p[p.len() - 1]));
        assert(is_element(q[q.len() - 1]));
        assert forall|i: int| 0 <= i < p1.len() implies is_element(#[trigger] p1[i]) by {
            assert(p1[i] == p[i]);
        }
        assert forall|i: int| 0 <= i < q1.len() implies is_element(#[trigger] q1[i]) by {
            assert(q1[i] == q[i]);
        }
        lemma_pattern_determined(p1, q1);
        assert(p.last() == q.last());
        assert(p =~= p1.push(p.last()));
        assert(q =~= q1.push(q.last()));
    } else {
        assert(p =~= q);
    }
}

/// No two patterns stand for the same character: whatever a pattern resolves
/// to, no other pattern resolves to it.
pub proof fn lemma_patterns_one_to_one(p: Seq<char>, q: Seq<char>)
    requires
        letter_of_pattern(p) is Some,
        letter_of_pattern(p) == letter_of_pattern(q),
    ensures
        p == q,
{
    lemma_letter_code(p.len(), pattern_value(p));
    lemma_letter_code(q.len(), pattern_value(q));
    lemma_pattern_determined(p, q);
}

/// The character a pattern stands for.
pub fn letter_of(p: &[char]) -> (r: Option<char>)
    ensures
        r == letter_of_pattern(p@),
{
    match pattern_key(p) {
        Some((len, value)) => letter_at(len, value),
        None => None,
    }
}

/// The procedural signal a pattern stands for.
pub fn prosign_of(p: &[char]) -> (r: Option<&'static str>)
    ensures
        r matches Some(t) ==> prosign_of_pattern(p@) == Some(t@),
        r is None ==> prosign_of_pattern(p@) is None,
{
    match pattern_key(p) {
        Some((len, value)) => prosign_at(len, value),
        None => None,
    }
}

/// A letter in the case the operator chose.
pub fn apply_case(c: char, case: TextCase) -> (r: char)
    ensures
        r == cased(c, case),
{
    match case {
        TextCase::Upper => {
            if 'a' <= c && c <= 'z' {
                let b: u8 = c as u8;
                (b - 32) as char
            } else {
                c
            }
        },
        TextCase::Lower => lower_char(c),
        TextCase::AsReceived => c,
    }
}

/// Appends what a finished pattern stands for and says whether the alphabet
/// knew it. An empty pattern appends nothing and is no decision at all.
pub fn emit_pattern(
    out: &mut String,
    pattern: &[char],
    show_prosigns: bool,
    case: TextCase,
    mark_dropouts: bool,
) -> (r: Option<bool>)
    ensures
        pattern@.len() == 0 ==> r is None && final(out)@ == old(out)@,
        pattern@.len() > 0 ==> r == Some(
            (show_prosigns && prosign_of_pattern(pattern@) is Some) || letter_of_pattern(pattern@) is Some,
        ) && final(out)@ == old(out)@ + pattern_text(pattern@, show_prosigns, case, mark_dropouts),
{
    if pattern.len() == 0 {
        return None;
    }
    let prosign = if show_prosigns {
        prosign_of(pattern)
    } else {
        None
    };
    let letter = letter_of(pattern);
    let found = prosign.is_some() || letter.is_some();
    match prosign {
        Some(name) => {
            push_str(out, name);
        },
        None => match letter {
            Some(c) => {
                push_char(out, apply_case(c, case));
            },
            None => {
                if mark_dropouts {
                    push_char(out, '*');
                }
            },
        },
    }
    assert(out@ =~= old(out)@ + pattern_text(pattern@, show_prosigns, case, mark_dropouts)) by {
        if !show_prosigns || prosign is None {
            if letter is None && !mark_dropouts {
                assert(old(out)@ + Seq::<char>::empty() =~= old(out)@);
            }
        }
    }
    Some(found)
}

} // verus!
