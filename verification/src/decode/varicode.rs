//! Variable length alphabet of PSK31.
//!
//! ## Why the codes need no length beside them
//!
//! Two properties settle every framing question the decoder would otherwise
//! have to ask. No code contains two consecutive noughts, and every code begins
//! and ends with a one. So a pair of noughts is a character boundary and cannot
//! be anything else, and the boundary needs no counter, no length field and no
//! resynchronization: a decoder that joins a transmission halfway through is in
//! step by the end of the first character.
//!
//! The leading one has a second consequence that the lookup rests on. A code
//! read as an integer determines its own length, because the position of the
//! highest set bit is the length. So the accumulated bits are a unique key on
//! their own and the table needs no length column: two codes of different
//! lengths cannot collide, and two of the same length are different patterns by
//! construction.
//!
//! ## Why the codes are written as text
//!
//! The table is transcribed from the published one and is audited against it,
//! which is a reading of a hundred lines rather than a computation. Bit patterns
//! would make that audit a conversion per line, and a conversion done by eye is
//! where a transcription error hides.
//!
//! The frequency ordering is the whole design and is worth seeing: a space is one
//! bit, the letter e is two, and the letters an operator sends least often reach
//! ten. That is why the format carries as much text per second as it does at a
//! bandwidth of thirty one hertz.

use std::collections::HashMap;
use vstd::prelude::*;
use crate::text::chars_of;

verus! {

broadcast use vstd::std_specs::hash::group_hash_axioms;

/// Longest code in the table, in bits.
///
/// Read by the decoder as the point past which an accumulation is noise rather
/// than a character. Ten plus the tentative nought that has not yet been
/// resolved into a boundary.
pub const MAX_BITS: u32 = 10;

/// Number of codes in the table.
pub const TABLE_LEN: usize = 98;

/// Every code, as text.
///
/// The printable range plus the three control codes that carry meaning on the
/// air. The remaining control codes have codes of their own in the published
/// table and are omitted deliberately: nothing sends them, and a decoder that
/// accepted them would print a control character out of noise rather than
/// counting the noise as a failure.
pub const TABLE: [(&'static str, char); 98] = [
    ("11101111", '\t'),
    ("11101", '\n'),
    ("11111", '\r'),
    ("1", ' '),
    ("111111111", '!'),
    ("101011111", '"'),
    ("111110101", '#'),
    ("111011011", '$'),
    ("1011010101", '%'),
    ("1010111011", '&'),
    ("101111111", '\''),
    ("11111011", '('),
    ("11110111", ')'),
    ("101101111", '*'),
    ("111011111", '+'),
    ("1110101", ','),
    ("110101", '-'),
    ("1010111", '.'),
    ("110101111", '/'),
    ("10110111", '0'),
    ("10111101", '1'),
    ("11101101", '2'),
    ("11111111", '3'),
    ("101110111", '4'),
    ("101011011", '5'),
    ("101101011", '6'),
    ("110101011", '7'),
    ("110101101", '8'),
    ("110110111", '9'),
    ("11110101", ':'),
    ("110111101", ';'),
    ("111101101", '<'),
    ("1010101", '='),
    ("111010111", '>'),
    ("1010101111", '?'),
    ("1010111101", '@'),
    ("1111101", 'A'),
    ("11101011", 'B'),
    ("10101101", 'C'),
    ("10110101", 'D'),
    ("1110111", 'E'),
    ("11011011", 'F'),
    ("11111101", 'G'),
    ("101010101", 'H'),
    ("1111111", 'I'),
    ("111111101", 'J'),
    ("101111101", 'K'),
    ("11010111", 'L'),
    ("10111011", 'M'),
    ("11011101", 'N'),
    ("10101011", 'O'),
    ("11010101", 'P'),
    ("111011101", 'Q'),
    ("10101111", 'R'),
    ("1101111", 'S'),
    ("1101101", 'T'),
    ("101010111", 'U'),
    ("110110101", 'V'),
    ("101011101", 'W'),
    ("101110101", 'X'),
    ("101111011", 'Y'),
    ("1010101101", 'Z'),
    ("111110111", '['),
    ("111101111", '\\'),
    ("111111011", ']'),
    ("1010111111", '^'),
    ("101101101", '_'),
    ("1011011111", '`'),
    ("1011", 'a'),
    ("1011111", 'b'),
    ("101111", 'c'),
    ("101101", 'd'),
    ("11", 'e'),
    ("111101", 'f'),
    ("1011011", 'g'),
    ("101011", 'h'),
    ("1101", 'i'),
    ("111101011", 'j'),
    ("10111111", 'k'),
    ("11011", 'l'),
    ("111011", 'm'),
    ("1111", 'n'),
    ("111", 'o'),
    ("111111", 'p'),
    ("110111111", 'q'),
    ("10101", 'r'),
    ("10111", 's'),
    ("101", 't'),
    ("110111", 'u'),
    ("1111011", 'v'),
    ("1101011", 'w'),
    ("11011111", 'x'),
    ("1011101", 'y'),
    ("111010101", 'z'),
    ("1010110111", '{'),
    ("110111011", '|'),
    ("1010110101", '}'),
    ("1011010111", '~'),
];

// ------------------------------------------------------------------ codes

pub open spec fn bit_value(c: char) -> nat {
    if c == '1' {
        1
    } else {
        0
    }
}

/// A code read as a binary number, first character most significant.
pub open spec fn packed_value(s: Seq<char>) -> nat
    decreases s.len(),
{
    if s.len() == 0 {
        0
    } else {
        packed_value(s.drop_last()) * 2 + bit_value(s.last())
    }
}

/// Only ones and noughts, and never two noughts in a row.
pub open spec fn framing_safe(s: Seq<char>) -> bool
    decreases s.len(),
{
    if s.len() == 0 {
        true
    } else {
        &&& (s[0] == '0' || s[0] == '1')
        &&& (s.len() >= 2 ==> !(s[0] == '0' && s[1] == '0'))
        &&& framing_safe(s.drop_first())
    }
}

/// What the framing needs of a code: it begins and ends with a one, holds no
/// boundary, and is no longer than the longest code.
pub open spec fn is_code(s: Seq<char>) -> bool {
    &&& 0 < s.len() <= MAX_BITS
    &&& s[0] == '1'
    &&& s.last() == '1'
    &&& framing_safe(s)
}

/// Position in the table of the code with a given packed value.
spec fn code_index(p: nat) -> int {
    if p == 239 {
        0
    } else     if p == 29 {
        1
    } else     if p == 31 {
        2
    } else     if p == 1 {
        3
    } else     if p == 511 {
        4
    } else     if p == 351 {
        5
    } else     if p == 501 {
        6
    } else     if p == 475 {
        7
    } else     if p == 725 {
        8
    } else     if p == 699 {
        9
    } else     if p == 383 {
        10
    } else     if p == 251 {
        11
    } else     if p == 247 {
        12
    } else     if p == 367 {
        13
    } else     if p == 479 {
        14
    } else     if p == 117 {
        15
    } else     if p == 53 {
        16
    } else     if p == 87 {
        17
    } else     if p == 431 {
        18
    } else     if p == 183 {
        19
    } else     if p == 189 {
        20
    } else     if p == 237 {
        21
    } else     if p == 255 {
        22
    } else     if p == 375 {
        23
    } else     if p == 347 {
        24
    } else     if p == 363 {
        25
    } else     if p == 427 {
        26
    } else     if p == 429 {
        27
    } else     if p == 439 {
        28
    } else     if p == 245 {
        29
    } else     if p == 445 {
        30
    } else     if p == 493 {
        31
    } else     if p == 85 {
        32
    } else     if p == 471 {
        33
    } else     if p == 687 {
        34
    } else     if p == 701 {
        35
    } else     if p == 125 {
        36
    } else     if p == 235 {
        37
    } else     if p == 173 {
        38
    } else     if p == 181 {
        39
    } else     if p == 119 {
        40
    } else     if p == 219 {
        41
    } else     if p == 253 {
        42
    } else     if p == 341 {
        43
    } else     if p == 127 {
        44
    } else     if p == 509 {
        45
    } else     if p == 381 {
        46
    } else     if p == 215 {
        47
    } else     if p == 187 {
        48
    } else     if p == 221 {
        49
    } else     if p == 171 {
        50
    } else     if p == 213 {
        51
    } else     if p == 477 {
        52
    } else     if p == 175 {
        53
    } else     if p == 111 {
        54
    } else     if p == 109 {
        55
    } else     if p == 343 {
        56
    } else     if p == 437 {
        57
    } else     if p == 349 {
        58
    } else     if p == 373 {
        59
    } else     if p == 379 {
        60
    } else     if p == 685 {
        61
    } else     if p == 503 {
        62
    } else     if p == 495 {
        63
    } else     if p == 507 {
        64
    } else     if p == 703 {
        65
    } else     if p == 365 {
        66
    } else     if p == 735 {
        67
    } else     if p == 11 {
        68
    } else     if p == 95 {
        69
    } else     if p == 47 {
        70
    } else     if p == 45 {
        71
    } else     if p == 3 {
        72
    } else     if p == 61 {
        73
    } else     if p == 91 {
        74
    } else     if p == 43 {
        75
    } else     if p == 13 {
        76
    } else     if p == 491 {
        77
    } else     if p == 191 {
        78
    } else     if p == 27 {
        79
    } else     if p == 59 {
        80
    } else     if p == 15 {
        81
    } else     if p == 7 {
        82
    } else     if p == 63 {
        83
    } else     if p == 447 {
        84
    } else     if p == 21 {
        85
    } else     if p == 23 {
        86
    } else     if p == 5 {
        87
    } else     if p == 55 {
        88
    } else     if p == 123 {
        89
    } else     if p == 107 {
        90
    } else     if p == 223 {
        91
    } else     if p == 93 {
        92
    } else     if p == 469 {
        93
    } else     if p == 695 {
        94
    } else     if p == 443 {
        95
    } else     if p == 693 {
        96
    } else     if p == 727 {
        97
    } else {
        -1
    }
}

spec fn entry_fact(i: int) -> bool {
    is_code(TABLE@[i].0@) && code_index(packed_value(TABLE@[i].0@)) == i
}

proof fn lemma_entry_0()
    ensures
        entry_fact(0),
{
    reveal_with_fuel(framing_safe, 11);
    reveal_with_fuel(packed_value, 11);
    reveal_strlit("11101111");
}

proof fn lemma_entry_1()
    ensures
        entry_fact(1),
{
    reveal_with_fuel(framing_safe, 11);
    reveal_with_fuel(packed_value, 11);
    reveal_strlit("11101");
}

proof fn lemma_entry_2()
    ensures
        entry_fact(2),
{
    reveal_with_fuel(framing_safe, 11);
    reveal_with_fuel(packed_value, 11);
    reveal_strlit("11111");
}

proof fn lemma_entry_3()
    ensures
        entry_fact(3),
{
    reveal_with_fuel(framing_safe, 11);
    reveal_with_fuel(packed_value, 11);
    reveal_strlit("1");
}

proof fn lemma_entry_4()
    ensures
        entry_fact(4),
{
    reveal_with_fuel(framing_safe, 11);
    reveal_with_fuel(packed_value, 11);
    reveal_strlit("111111111");
}

proof fn lemma_entry_5()
    ensures
        entry_fact(5),
{
    reveal_with_fuel(framing_safe, 11);
    reveal_with_fuel(packed_value, 11);
    reveal_strlit("101011111");
}

proof fn lemma_entry_6()
    ensures
        entry_fact(6),
{
    reveal_with_fuel(framing_safe, 11);
    reveal_with_fuel(packed_value, 11);
    reveal_strlit("111110101");
}

proof fn lemma_entry_7()
    ensures
        entry_fact(7),
{
    reveal_with_fuel(framing_safe, 11);
    reveal_with_fuel(packed_value, 11);
    reveal_strlit("111011011");
}

proof fn lemma_entry_8()
    ensures
        entry_fact(8),
{
    reveal_with_fuel(framing_safe, 11);
    reveal_with_fuel(packed_value, 11);
    reveal_strlit("1011010101");
}

proof fn lemma_entry_9()
    ensures
        entry_fact(9),
{
    reveal_with_fuel(framing_safe, 11);
    reveal_with_fuel(packed_value, 11);
    reveal_strlit("1010111011");
}

proof fn lemma_entry_10()
    ensures
        entry_fact(10),
{
    reveal_with_fuel(framing_safe, 11);
    reveal_with_fuel(packed_value, 11);
    reveal_strlit("101111111");
}

proof fn lemma_entry_11()
    ensures
        entry_fact(11),
{
    reveal_with_fuel(framing_safe, 11);
    reveal_with_fuel(packed_value, 11);
    reveal_strlit("11111011");
}

proof fn lemma_entry_12()
    ensures
        entry_fact(12),
{
    reveal_with_fuel(framing_safe, 11);
    reveal_with_fuel(packed_value, 11);
    reveal_strlit("11110111");
}

proof fn lemma_entry_13()
    ensures
        entry_fact(13),
{
    reveal_with_fuel(framing_safe, 11);
    reveal_with_fuel(packed_value, 11);
    reveal_strlit("101101111");
}

proof fn lemma_entry_14()
    ensures
        entry_fact(14),
{
    reveal_with_fuel(framing_safe, 11);
    reveal_with_fuel(packed_value, 11);
    reveal_strlit("111011111");
}

proof fn lemma_entry_15()
    ensures
        entry_fact(15),
{
    reveal_with_fuel(framing_safe, 11);
    reveal_with_fuel(packed_value, 11);
    reveal_strlit("1110101");
}

proof fn lemma_entry_16()
    ensures
        entry_fact(16),
{
    reveal_with_fuel(framing_safe, 11);
    reveal_with_fuel(packed_value, 11);
    reveal_strlit("110101");
}

proof fn lemma_entry_17()
    ensures
        entry_fact(17),
{
    reveal_with_fuel(framing_safe, 11);
    reveal_with_fuel(packed_value, 11);
    reveal_strlit("1010111");
}

proof fn lemma_entry_18()
    ensures
        entry_fact(18),
{
    reveal_with_fuel(framing_safe, 11);
    reveal_with_fuel(packed_value, 11);
    reveal_strlit("110101111");
}

proof fn lemma_entry_19()
    ensures
        entry_fact(19),
{
    reveal_with_fuel(framing_safe, 11);
    reveal_with_fuel(packed_value, 11);
    reveal_strlit("10110111");
}

proof fn lemma_entry_20()
    ensures
        entry_fact(20),
{
    reveal_with_fuel(framing_safe, 11);
    reveal_with_fuel(packed_value, 11);
    reveal_strlit("10111101");
}

proof fn lemma_entry_21()
    ensures
        entry_fact(21),
{
    reveal_with_fuel(framing_safe, 11);
    reveal_with_fuel(packed_value, 11);
    reveal_strlit("11101101");
}

proof fn lemma_entry_22()
    ensures
        entry_fact(22),
{
    reveal_with_fuel(framing_safe, 11);
    reveal_with_fuel(packed_value, 11);
    reveal_strlit("11111111");
}

proof fn lemma_entry_23()
    ensures
        entry_fact(23),
{
    reveal_with_fuel(framing_safe, 11);
    reveal_with_fuel(packed_value, 11);
    reveal_strlit("101110111");
}

proof fn lemma_entry_24()
    ensures
        entry_fact(24),
{
    reveal_with_fuel(framing_safe, 11);
    reveal_with_fuel(packed_value, 11);
    reveal_strlit("101011011");
}

proof fn lemma_entry_25()
    ensures
        entry_fact(25),
{
    reveal_with_fuel(framing_safe, 11);
    reveal_with_fuel(packed_value, 11);
    reveal_strlit("101101011");
}

proof fn lemma_entry_26()
    ensures
        entry_fact(26),
{
    reveal_with_fuel(framing_safe, 11);
    reveal_with_fuel(packed_value, 11);
    reveal_strlit("110101011");
}

proof fn lemma_entry_27()
    ensures
        entry_fact(27),
{
    reveal_with_fuel(framing_safe, 11);
    reveal_with_fuel(packed_value, 11);
    reveal_strlit("110101101");
}

proof fn lemma_entry_28()
    ensures
        entry_fact(28),
{
    reveal_with_fuel(framing_safe, 11);
    reveal_with_fuel(packed_value, 11);
    reveal_strlit("110110111");
}

proof fn lemma_entry_29()
    ensures
        entry_fact(29),
{
    reveal_with_fuel(framing_safe, 11);
    reveal_with_fuel(packed_value, 11);
    reveal_strlit("11110101");
}

proof fn lemma_entry_30()
    ensures
        entry_fact(30),
{
    reveal_with_fuel(framing_safe, 11);
    reveal_with_fuel(packed_value, 11);
    reveal_strlit("110111101");
}

proof fn lemma_entry_31()
    ensures
        entry_fact(31),
{
    reveal_with_fuel(framing_safe, 11);
    reveal_with_fuel(packed_value, 11);
    reveal_strlit("111101101");
}

proof fn lemma_entry_32()
    ensures
        entry_fact(32),
{
    reveal_with_fuel(framing_safe, 11);
    reveal_with_fuel(packed_value, 11);
    reveal_strlit("1010101");
}

proof fn lemma_entry_33()
    ensures
        entry_fact(33),
{
    reveal_with_fuel(framing_safe, 11);
    reveal_with_fuel(packed_value, 11);
    reveal_strlit("111010111");
}

proof fn lemma_entry_34()
    ensures
        entry_fact(34),
{
    reveal_with_fuel(framing_safe, 11);
    reveal_with_fuel(packed_value, 11);
    reveal_strlit("1010101111");
}

proof fn lemma_entry_35()
    ensures
        entry_fact(35),
{
    reveal_with_fuel(framing_safe, 11);
    reveal_with_fuel(packed_value, 11);
    reveal_strlit("1010111101");
}

proof fn lemma_entry_36()
    ensures
        entry_fact(36),
{
    reveal_with_fuel(framing_safe, 11);
    reveal_with_fuel(packed_value, 11);
    reveal_strlit("1111101");
}

proof fn lemma_entry_37()
    ensures
        entry_fact(37),
{
    reveal_with_fuel(framing_safe, 11);
    reveal_with_fuel(packed_value, 11);
    reveal_strlit("11101011");
}

proof fn lemma_entry_38()
    ensures
        entry_fact(38),
{
    reveal_with_fuel(framing_safe, 11);
    reveal_with_fuel(packed_value, 11);
    reveal_strlit("10101101");
}

proof fn lemma_entry_39()
    ensures
        entry_fact(39),
{
    reveal_with_fuel(framing_safe, 11);
    reveal_with_fuel(packed_value, 11);
    reveal_strlit("10110101");
}

proof fn lemma_entry_40()
    ensures
        entry_fact(40),
{
    reveal_with_fuel(framing_safe, 11);
    reveal_with_fuel(packed_value, 11);
    reveal_strlit("1110111");
}

proof fn lemma_entry_41()
    ensures
        entry_fact(41),
{
    reveal_with_fuel(framing_safe, 11);
    reveal_with_fuel(packed_value, 11);
    reveal_strlit("11011011");
}

proof fn lemma_entry_42()
    ensures
        entry_fact(42),
{
    reveal_with_fuel(framing_safe, 11);
    reveal_with_fuel(packed_value, 11);
    reveal_strlit("11111101");
}

proof fn lemma_entry_43()
    ensures
        entry_fact(43),
{
    reveal_with_fuel(framing_safe, 11);
    reveal_with_fuel(packed_value, 11);
    reveal_strlit("101010101");
}

proof fn lemma_entry_44()
    ensures
        entry_fact(44),
{
    reveal_with_fuel(framing_safe, 11);
    reveal_with_fuel(packed_value, 11);
    reveal_strlit("1111111");
}

proof fn lemma_entry_45()
    ensures
        entry_fact(45),
{
    reveal_with_fuel(framing_safe, 11);
    reveal_with_fuel(packed_value, 11);
    reveal_strlit("111111101");
}

proof fn lemma_entry_46()
    ensures
        entry_fact(46),
{
    reveal_with_fuel(framing_safe, 11);
    reveal_with_fuel(packed_value, 11);
    reveal_strlit("101111101");
}

proof fn lemma_entry_47()
    ensures
        entry_fact(47),
{
    reveal_with_fuel(framing_safe, 11);
    reveal_with_fuel(packed_value, 11);
    reveal_strlit("11010111");
}

proof fn lemma_entry_48()
    ensures
        entry_fact(48),
{
    reveal_with_fuel(framing_safe, 11);
    reveal_with_fuel(packed_value, 11);
    reveal_strlit("10111011");
}

proof fn lemma_entry_49()
    ensures
        entry_fact(49),
{
    reveal_with_fuel(framing_safe, 11);
    reveal_with_fuel(packed_value, 11);
    reveal_strlit("11011101");
}

proof fn lemma_entry_50()
    ensures
        entry_fact(50),
{
    reveal_with_fuel(framing_safe, 11);
    reveal_with_fuel(packed_value, 11);
    reveal_strlit("10101011");
}

proof fn lemma_entry_51()
    ensures
        entry_fact(51),
{
    reveal_with_fuel(framing_safe, 11);
    reveal_with_fuel(packed_value, 11);
    reveal_strlit("11010101");
}

proof fn lemma_entry_52()
    ensures
        entry_fact(52),
{
    reveal_with_fuel(framing_safe, 11);
    reveal_with_fuel(packed_value, 11);
    reveal_strlit("111011101");
}

proof fn lemma_entry_53()
    ensures
        entry_fact(53),
{
    reveal_with_fuel(framing_safe, 11);
    reveal_with_fuel(packed_value, 11);
    reveal_strlit("10101111");
}

proof fn lemma_entry_54()
    ensures
        entry_fact(54),
{
    reveal_with_fuel(framing_safe, 11);
    reveal_with_fuel(packed_value, 11);
    reveal_strlit("1101111");
}

proof fn lemma_entry_55()
    ensures
        entry_fact(55),
{
    reveal_with_fuel(framing_safe, 11);
    reveal_with_fuel(packed_value, 11);
    reveal_strlit("1101101");
}

proof fn lemma_entry_56()
    ensures
        entry_fact(56),
{
    reveal_with_fuel(framing_safe, 11);
    reveal_with_fuel(packed_value, 11);
    reveal_strlit("101010111");
}

proof fn lemma_entry_57()
    ensures
        entry_fact(57),
{
    reveal_with_fuel(framing_safe, 11);
    reveal_with_fuel(packed_value, 11);
    reveal_strlit("110110101");
}

proof fn lemma_entry_58()
    ensures
        entry_fact(58),
{
    reveal_with_fuel(framing_safe, 11);
    reveal_with_fuel(packed_value, 11);
    reveal_strlit("101011101");
}

proof fn lemma_entry_59()
    ensures
        entry_fact(59),
{
    reveal_with_fuel(framing_safe, 11);
    reveal_with_fuel(packed_value, 11);
    reveal_strlit("101110101");
}

proof fn lemma_entry_60()
    ensures
        entry_fact(60),
{
    reveal_with_fuel(framing_safe, 11);
    reveal_with_fuel(packed_value, 11);
    reveal_strlit("101111011");
}

proof fn lemma_entry_61()
    ensures
        entry_fact(61),
{
    reveal_with_fuel(framing_safe, 11);
    reveal_with_fuel(packed_value, 11);
    reveal_strlit("1010101101");
}

proof fn lemma_entry_62()
    ensures
        entry_fact(62),
{
    reveal_with_fuel(framing_safe, 11);
    reveal_with_fuel(packed_value, 11);
    reveal_strlit("111110111");
}

proof fn lemma_entry_63()
    ensures
        entry_fact(63),
{
    reveal_with_fuel(framing_safe, 11);
    reveal_with_fuel(packed_value, 11);
    reveal_strlit("111101111");
}

proof fn lemma_entry_64()
    ensures
        entry_fact(64),
{
    reveal_with_fuel(framing_safe, 11);
    reveal_with_fuel(packed_value, 11);
    reveal_strlit("111111011");
}

proof fn lemma_entry_65()
    ensures
        entry_fact(65),
{
    reveal_with_fuel(framing_safe, 11);
    reveal_with_fuel(packed_value, 11);
    reveal_strlit("1010111111");
}

proof fn lemma_entry_66()
    ensures
        entry_fact(66),
{
    reveal_with_fuel(framing_safe, 11);
    reveal_with_fuel(packed_value, 11);
    reveal_strlit("101101101");
}

proof fn lemma_entry_67()
    ensures
        entry_fact(67),
{
    reveal_with_fuel(framing_safe, 11);
    reveal_with_fuel(packed_value, 11);
    reveal_strlit("1011011111");
}

proof fn lemma_entry_68()
    ensures
        entry_fact(68),
{
    reveal_with_fuel(framing_safe, 11);
    reveal_with_fuel(packed_value, 11);
    reveal_strlit("1011");
}

proof fn lemma_entry_69()
    ensures
        entry_fact(69),
{
    reveal_with_fuel(framing_safe, 11);
    reveal_with_fuel(packed_value, 11);
    reveal_strlit("1011111");
}

proof fn lemma_entry_70()
    ensures
        entry_fact(70),
{
    reveal_with_fuel(framing_safe, 11);
    reveal_with_fuel(packed_value, 11);
    reveal_strlit("101111");
}

proof fn lemma_entry_71()
    ensures
        entry_fact(71),
{
    reveal_with_fuel(framing_safe, 11);
    reveal_with_fuel(packed_value, 11);
    reveal_strlit("101101");
}

proof fn lemma_entry_72()
    ensures
        entry_fact(72),
{
    reveal_with_fuel(framing_safe, 11);
    reveal_with_fuel(packed_value, 11);
    reveal_strlit("11");
}

proof fn lemma_entry_73()
    ensures
        entry_fact(73),
{
    reveal_with_fuel(framing_safe, 11);
    reveal_with_fuel(packed_value, 11);
    reveal_strlit("111101");
}

proof fn lemma_entry_74()
    ensures
        entry_fact(74),
{
    reveal_with_fuel(framing_safe, 11);
    reveal_with_fuel(packed_value, 11);
    reveal_strlit("1011011");
}

proof fn lemma_entry_75()
    ensures
        entry_fact(75),
{
    reveal_with_fuel(framing_safe, 11);
    reveal_with_fuel(packed_value, 11);
    reveal_strlit("101011");
}

proof fn lemma_entry_76()
    ensures
        entry_fact(76),
{
    reveal_with_fuel(framing_safe, 11);
    reveal_with_fuel(packed_value, 11);
    reveal_strlit("1101");
}

proof fn lemma_entry_77()
    ensures
        entry_fact(77),
{
    reveal_with_fuel(framing_safe, 11);
    reveal_with_fuel(packed_value, 11);
    reveal_strlit("111101011");
}

proof fn lemma_entry_78()
    ensures
        entry_fact(78),
{
    reveal_with_fuel(framing_safe, 11);
    reveal_with_fuel(packed_value, 11);
    reveal_strlit("10111111");
}

proof fn lemma_entry_79()
    ensures
        entry_fact(79),
{
    reveal_with_fuel(framing_safe, 11);
    reveal_with_fuel(packed_value, 11);
    reveal_strlit("11011");
}

proof fn lemma_entry_80()
    ensures
        entry_fact(80),
{
    reveal_with_fuel(framing_safe, 11);
    reveal_with_fuel(packed_value, 11);
    reveal_strlit("111011");
}

proof fn lemma_entry_81()
    ensures
        entry_fact(81),
{
    reveal_with_fuel(framing_safe, 11);
    reveal_with_fuel(packed_value, 11);
    reveal_strlit("1111");
}

proof fn lemma_entry_82()
    ensures
        entry_fact(82),
{
    reveal_with_fuel(framing_safe, 11);
    reveal_with_fuel(packed_value, 11);
    reveal_strlit("111");
}

proof fn lemma_entry_83()
    ensures
        entry_fact(83),
{
    reveal_with_fuel(framing_safe, 11);
    reveal_with_fuel(packed_value, 11);
    reveal_strlit("111111");
}

proof fn lemma_entry_84()
    ensures
        entry_fact(84),
{
    reveal_with_fuel(framing_safe, 11);
    reveal_with_fuel(packed_value, 11);
    reveal_strlit("110111111");
}

proof fn lemma_entry_85()
    ensures
        entry_fact(85),
{
    reveal_with_fuel(framing_safe, 11);
    reveal_with_fuel(packed_value, 11);
    reveal_strlit("10101");
}

proof fn lemma_entry_86()
    ensures
        entry_fact(86),
{
    reveal_with_fuel(framing_safe, 11);
    reveal_with_fuel(packed_value, 11);
    reveal_strlit("10111");
}

proof fn lemma_entry_87()
    ensures
        entry_fact(87),
{
    reveal_with_fuel(framing_safe, 11);
    reveal_with_fuel(packed_value, 11);
    reveal_strlit("101");
}

proof fn lemma_entry_88()
    ensures
        entry_fact(88),
{
    reveal_with_fuel(framing_safe, 11);
    reveal_with_fuel(packed_value, 11);
    reveal_strlit("110111");
}

proof fn lemma_entry_89()
    ensures
        entry_fact(89),
{
    reveal_with_fuel(framing_safe, 11);
    reveal_with_fuel(packed_value, 11);
    reveal_strlit("1111011");
}

proof fn lemma_entry_90()
    ensures
        entry_fact(90),
{
    reveal_with_fuel(framing_safe, 11);
    reveal_with_fuel(packed_value, 11);
    reveal_strlit("1101011");
}

proof fn lemma_entry_91()
    ensures
        entry_fact(91),
{
    reveal_with_fuel(framing_safe, 11);
    reveal_with_fuel(packed_value, 11);
    reveal_strlit("11011111");
}

proof fn lemma_entry_92()
    ensures
        entry_fact(92),
{
    reveal_with_fuel(framing_safe, 11);
    reveal_with_fuel(packed_value, 11);
    reveal_strlit("1011101");
}

proof fn lemma_entry_93()
    ensures
        entry_fact(93),
{
    reveal_with_fuel(framing_safe, 11);
    reveal_with_fuel(packed_value, 11);
    reveal_strlit("111010101");
}

proof fn lemma_entry_94()
    ensures
        entry_fact(94),
{
    reveal_with_fuel(framing_safe, 11);
    reveal_with_fuel(packed_value, 11);
    reveal_strlit("1010110111");
}

proof fn lemma_entry_95()
    ensures
        entry_fact(95),
{
    reveal_with_fuel(framing_safe, 11);
    reveal_with_fuel(packed_value, 11);
    reveal_strlit("110111011");
}

proof fn lemma_entry_96()
    ensures
        entry_fact(96),
{
    reveal_with_fuel(framing_safe, 11);
    reveal_with_fuel(packed_value, 11);
    reveal_strlit("1010110101");
}

proof fn lemma_entry_97()
    ensures
        entry_fact(97),
{
    reveal_with_fuel(framing_safe, 11);
    reveal_with_fuel(packed_value, 11);
    reveal_strlit("1011010111");
}

proof fn lemma_entries()
    ensures
        forall|i: int| 0 <= i < TABLE_LEN ==> #[trigger] entry_fact(i),
{
    lemma_entry_0();
    lemma_entry_1();
    lemma_entry_2();
    lemma_entry_3();
    lemma_entry_4();
    lemma_entry_5();
    lemma_entry_6();
    lemma_entry_7();
    lemma_entry_8();
    lemma_entry_9();
    lemma_entry_10();
    lemma_entry_11();
    lemma_entry_12();
    lemma_entry_13();
    lemma_entry_14();
    lemma_entry_15();
    lemma_entry_16();
    lemma_entry_17();
    lemma_entry_18();
    lemma_entry_19();
    lemma_entry_20();
    lemma_entry_21();
    lemma_entry_22();
    lemma_entry_23();
    lemma_entry_24();
    lemma_entry_25();
    lemma_entry_26();
    lemma_entry_27();
    lemma_entry_28();
    lemma_entry_29();
    lemma_entry_30();
    lemma_entry_31();
    lemma_entry_32();
    lemma_entry_33();
    lemma_entry_34();
    lemma_entry_35();
    lemma_entry_36();
    lemma_entry_37();
    lemma_entry_38();
    lemma_entry_39();
    lemma_entry_40();
    lemma_entry_41();
    lemma_entry_42();
    lemma_entry_43();
    lemma_entry_44();
    lemma_entry_45();
    lemma_entry_46();
    lemma_entry_47();
    lemma_entry_48();
    lemma_entry_49();
    lemma_entry_50();
    lemma_entry_51();
    lemma_entry_52();
    lemma_entry_53();
    lemma_entry_54();
    lemma_entry_55();
    lemma_entry_56();
    lemma_entry_57();
    lemma_entry_58();
    lemma_entry_59();
    lemma_entry_60();
    lemma_entry_61();
    lemma_entry_62();
    lemma_entry_63();
    lemma_entry_64();
    lemma_entry_65();
    lemma_entry_66();
    lemma_entry_67();
    lemma_entry_68();
    lemma_entry_69();
    lemma_entry_70();
    lemma_entry_71();
    lemma_entry_72();
    lemma_entry_73();
    lemma_entry_74();
    lemma_entry_75();
    lemma_entry_76();
    lemma_entry_77();
    lemma_entry_78();
    lemma_entry_79();
    lemma_entry_80();
    lemma_entry_81();
    lemma_entry_82();
    lemma_entry_83();
    lemma_entry_84();
    lemma_entry_85();
    lemma_entry_86();
    lemma_entry_87();
    lemma_entry_88();
    lemma_entry_89();
    lemma_entry_90();
    lemma_entry_91();
    lemma_entry_92();
    lemma_entry_93();
    lemma_entry_94();
    lemma_entry_95();
    lemma_entry_96();
    lemma_entry_97();
    assert forall|i: int| 0 <= i < TABLE_LEN implies #[trigger] entry_fact(i) by {
        assert(i == 0 || i == 1 || i == 2 || i == 3 || i == 4 || i == 5 || i == 6 || i == 7 || i == 8 || i == 9 || i == 10 || i == 11 || i == 12 || i == 13 || i == 14 || i == 15 || i == 16 || i == 17 || i == 18 || i == 19 || i == 20 || i == 21 || i == 22 || i == 23 || i == 24 || i == 25 || i == 26 || i == 27 || i == 28 || i == 29 || i == 30 || i == 31 || i == 32 || i == 33 || i == 34 || i == 35 || i == 36 || i == 37 || i == 38 || i == 39 || i == 40 || i == 41 || i == 42 || i == 43 || i == 44 || i == 45 || i == 46 || i == 47 || i == 48 || i == 49 || i == 50 || i == 51 || i == 52 || i == 53 || i == 54 || i == 55 || i == 56 || i == 57 || i == 58 || i == 59 || i == 60 || i == 61 || i == 62 || i == 63 || i == 64 || i == 65 || i == 66 || i == 67 || i == 68 || i == 69 || i == 70 || i == 71 || i == 72 || i == 73 || i == 74 || i == 75 || i == 76 || i == 77 || i == 78 || i == 79 || i == 80 || i == 81 || i == 82 || i == 83 || i == 84 || i == 85 || i == 86 || i == 87 || i == 88 || i == 89 || i == 90 || i == 91 || i == 92 || i == 93 || i == 94 || i == 95 || i == 96 || i == 97);
    }
}

/// Every code in the table begins and ends with a one, holds no pair of
/// noughts and is at most `MAX_BITS` long: the property the framing rests on.
pub proof fn lemma_codes_are_framing_safe()
    ensures
        forall|i: int| 0 <= i < TABLE_LEN ==> #[trigger] is_code(TABLE@[i].0@),
{
    lemma_entries();
    assert forall|i: int| 0 <= i < TABLE_LEN implies #[trigger] is_code(TABLE@[i].0@) by {
        assert(entry_fact(i));
    }
}

/// The packed form is a unique key: two entries with the same packed value
/// are the same entry.
pub proof fn lemma_packed_is_unique(i: int, j: int)
    requires
        0 <= i < TABLE_LEN,
        0 <= j < TABLE_LEN,
        packed_value(TABLE@[i].0@) == packed_value(TABLE@[j].0@),
    ensures
        i == j,
{
    lemma_entries();
    assert(entry_fact(i));
    assert(entry_fact(j));
}


// ----------------------------------------------------------- the packed key

/// What reading a text as bits computes in sixteen bits: each character
/// shifts the accumulation left and a one sets the low bit.
pub open spec fn packed_bits(s: Seq<char>) -> u16
    decreases s.len(),
{
    if s.len() == 0 {
        0
    } else {
        ((packed_bits(s.drop_last()) << 1u16) | (if s.last() == '1' {
            1u16
        } else {
            0u16
        })) as u16
    }
}

proof fn lemma_shift_in(x: u16, b: u16)
    requires
        x < 0x8000,
        b <= 1,
    ensures
        ((x << 1u16) | b) as nat == x as nat * 2 + b as nat,
{
    assert(((x << 1u16) | b) == x * 2 + b) by (bit_vector)
        requires
            x < 0x8000,
            b <= 1,
    ;
}

/// For a text of at most fifteen characters the sixteen bit accumulation is
/// the packed value exactly.
pub proof fn lemma_packed_bits(s: Seq<char>)
    requires
        s.len() <= 15,
    ensures
        packed_value(s) < vstd::arithmetic::power2::pow2(s.len()),
        packed_bits(s) as nat == packed_value(s),
    decreases s.len(),
{
    if s.len() > 0 {
        vstd::arithmetic::power2::lemma_pow2_unfold(s.len());
        let p = s.drop_last();
        lemma_packed_bits(p);
        if p.len() < 15 {
            vstd::arithmetic::power2::lemma_pow2_strictly_increases(p.len(), 15);
        }
        vstd::arithmetic::power2::lemma2_to64();
        let b: u16 = if s.last() == '1' {
            1u16
        } else {
            0u16
        };
        lemma_shift_in(packed_bits(p), b);
    } else {
        vstd::arithmetic::power2::lemma2_to64();
    }
}

/// Reads a code as an integer.
///
/// The leading one makes the result a unique key, see the note above.
pub fn packed(code: &str) -> (r: u16)
    ensures
        r == packed_bits(code@),
{
    let v = chars_of(code);
    let mut bits: u16 = 0;
    let mut i: usize = 0;
    while i < v.len()
        invariant
            v@ == code@,
            i <= v@.len(),
            bits == packed_bits(v@.take(i as int)),
        decreases v@.len() - i,
    {
        bits = (bits << 1) | (if v[i] == '1' {
            1u16
        } else {
            0u16
        });
        assert(v@.take(i + 1).drop_last() =~= v@.take(i as int));
        i += 1;
    }
    assert(v@.take(i as int) =~= v@);
    bits
}

// --------------------------------------------------------------- alphabet

/// The lookup the alphabet holds: every entry inserted in table order.
pub open spec fn table_map_upto(n: int) -> Map<u16, char>
    decreases n,
{
    if n <= 0 || n > TABLE_LEN {
        Map::empty()
    } else {
        table_map_upto(n - 1).insert(packed_bits(TABLE@[n - 1].0@), TABLE@[n - 1].1)
    }
}

pub open spec fn table_map() -> Map<u16, char> {
    table_map_upto(TABLE_LEN as int)
}

/// What the alphabet resolves accumulated bits to.
pub open spec fn spec_decode(bits: u16) -> Option<char> {
    if table_map().contains_key(bits) {
        Some(table_map()[bits])
    } else {
        None
    }
}

/// For table codes the sixteen bit key is the packed value, so it is unique.
pub proof fn lemma_keys_are_unique(i: int, j: int)
    requires
        0 <= i < TABLE_LEN,
        0 <= j < TABLE_LEN,
        packed_bits(TABLE@[i].0@) == packed_bits(TABLE@[j].0@),
    ensures
        i == j,
{
    lemma_codes_are_framing_safe();
    assert(is_code(TABLE@[i].0@));
    assert(is_code(TABLE@[j].0@));
    lemma_packed_bits(TABLE@[i].0@);
    lemma_packed_bits(TABLE@[j].0@);
    lemma_packed_is_unique(i, j);
}

proof fn lemma_map_upto(n: int)
    requires
        0 <= n <= TABLE_LEN,
    ensures
        forall|i: int|
            0 <= i < n ==> #[trigger] table_map_upto(n).contains_key(packed_bits(TABLE@[i].0@))
                && table_map_upto(n)[packed_bits(TABLE@[i].0@)] == TABLE@[i].1,
        forall|k: u16|
            #[trigger] table_map_upto(n).contains_key(k) ==> exists|i: int|
                0 <= i < n && packed_bits(TABLE@[i].0@) == k,
        table_map_upto(n).dom().finite(),
        table_map_upto(n).len() == n,
    decreases n,
{
    if n > 0 {
        lemma_map_upto(n - 1);
        let prev = table_map_upto(n - 1);
        let key = packed_bits(TABLE@[n - 1].0@);
        assert forall|i: int| 0 <= i < n - 1 implies packed_bits(TABLE@[i].0@) != key by {
            if packed_bits(TABLE@[i].0@) == key {
                lemma_keys_are_unique(i, n - 1);
            }
        }
        if prev.contains_key(key) {
            let i = choose|i: int| 0 <= i < n - 1 && packed_bits(TABLE@[i].0@) == key;
            assert(false);
        }
        assert forall|k: u16| #[trigger] table_map_upto(n).contains_key(k) implies exists|i: int|
            0 <= i < n && packed_bits(TABLE@[i].0@) == k by {
            if k != key {
                assert(prev.contains_key(k));
            }
        }
    } else {
        assert(table_map_upto(0).dom() =~= Set::<u16>::empty());
    }
}

/// Every entry of the table is found under its own packed code, and the
/// lookup holds exactly one key per entry.
pub proof fn lemma_table_map()
    ensures
        forall|i: int|
            0 <= i < TABLE_LEN ==> #[trigger] table_map().contains_key(packed_bits(TABLE@[i].0@))
                && table_map()[packed_bits(TABLE@[i].0@)] == TABLE@[i].1,
        forall|k: u16|
            #[trigger] table_map().contains_key(k) ==> exists|i: int|
                0 <= i < TABLE_LEN && packed_bits(TABLE@[i].0@) == k,
        table_map().len() == TABLE_LEN,
{
    lemma_map_upto(TABLE_LEN as int);
}

/// Code to character.
pub struct Alphabet {
    map: HashMap<u16, char>,
}

impl Alphabet {
    #[verifier::type_invariant]
    spec fn holds_the_table(self) -> bool {
        self.map@ == table_map()
    }

    /// The lookup the alphabet holds.
    pub closed spec fn lookup(&self) -> Map<u16, char> {
        self.map@
    }

    /// An alphabet holding every entry of the table.
    pub fn new() -> (r: Alphabet)
        ensures
            r.lookup() == table_map(),
    {
        let mut map: HashMap<u16, char> = HashMap::with_capacity(TABLE_LEN * 2);
        let mut i: usize = 0;
        while i < TABLE_LEN
            invariant
                i <= TABLE_LEN,
                map@ == table_map_upto(i as int),
            decreases TABLE_LEN - i,
        {
            let (code, ch) = TABLE[i];
            map.insert(packed(code), ch);
            i += 1;
        }
        Alphabet { map }
    }

    /// Resolves accumulated bits.
    ///
    /// Nothing for a pattern the table does not hold, which is what noise
    /// produces: the framing accepts any run of bits between two boundaries, so
    /// the table is the only thing that distinguishes a character from a
    /// coincidence.
    pub fn decode(&self, bits: u16) -> (r: Option<char>)
        ensures
            r == spec_decode(bits),
    {
        proof {
            use_type_invariant(self);
        }
        match self.map.get(&bits) {
            Some(c) => Some(*c),
            None => None,
        }
    }

    /// Number of distinct keys the alphabet holds.
    pub fn len(&self) -> (r: usize)
        ensures
            r == table_map().len(),
    {
        proof {
            use_type_invariant(self);
        }
        self.map.len()
    }
}

impl Default for Alphabet {
    fn default() -> (r: Alphabet)
        ensures
            r.lookup() == table_map(),
    {
        Alphabet::new()
    }
}

/// First position of a character in the table, or -1.
pub open spec fn char_index(ch: char) -> int {
    if exists|i: int| 0 <= i < TABLE_LEN && TABLE@[i].1 == ch {
        choose|i: int|
            0 <= i < TABLE_LEN && TABLE@[i].1 == ch && forall|j: int|
                0 <= j < i ==> TABLE@[j].1 != ch
    } else {
        -1
    }
}

/// Code of a character, as text.
///
/// Present for the transmitter in the tests, which is what makes the decoder
/// checkable without a signal: the round trip is the only way to exercise the
/// whole chain on a desk.
pub fn code_of(ch: char) -> (r: Option<&'static str>)
    ensures
        r matches Some(code) ==> exists|i: int|
            0 <= i < TABLE_LEN && TABLE@[i].1 == ch && code@ == TABLE@[i].0@ && (forall|j: int|
                0 <= j < i ==> TABLE@[j].1 != ch),
        r is None ==> forall|i: int| 0 <= i < TABLE_LEN ==> TABLE@[i].1 != ch,
{
    let mut i: usize = 0;
    while i < TABLE_LEN
        invariant
            i <= TABLE_LEN,
            forall|j: int| 0 <= j < i ==> TABLE@[j].1 != ch,
        decreases TABLE_LEN - i,
    {
        if TABLE[i].1 == ch {
            return Some(TABLE[i].0);
        }
        i += 1;
    }
    None
}

/// The code of a character resolves back to that character.
pub proof fn lemma_code_resolves(i: int)
    requires
        0 <= i < TABLE_LEN,
    ensures
        spec_decode(packed_bits(TABLE@[i].0@)) == Some(TABLE@[i].1),
{
    lemma_table_map();
    assert(table_map().contains_key(packed_bits(TABLE@[i].0@)));
}

} // verus!
