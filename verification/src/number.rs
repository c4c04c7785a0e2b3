//! Decimal integers as the configuration file writes and reads them: the
//! grammar of std's `FromStr` for the integer types and the output of their
//! `Display`.

use vstd::prelude::*;
use crate::text::push_char;

verus! {

pub open spec fn is_digit(c: char) -> bool {
    '0' <= c && c <= '9'
}

pub open spec fn digit_val(c: char) -> nat {
    ((c as u32) - ('0' as u32)) as nat
}

pub open spec fn digit_char(d: nat) -> char {
    (('0' as u32) + d) as char
}

pub open spec fn all_digits(s: Seq<char>) -> bool {
    forall|i: int| 0 <= i < s.len() ==> is_digit(#[trigger] s[i])
}

/// Value of a run of decimal digits.
pub open spec fn digits_value(s: Seq<char>) -> nat
    decreases s.len(),
{
    if s.len() == 0 {
        0
    } else {
        digits_value(s.drop_last()) * 10 + digit_val(s.last())
    }
}

/// The digits after an optional plus sign.
pub open spec fn unsigned_body(s: Seq<char>) -> Seq<char> {
    if s.len() > 0 && s[0] == '+' {
        s.drop_first()
    } else {
        s
    }
}

/// `FromStr` of an unsigned integer type whose largest value is `max`.
pub open spec fn parse_unsigned(s: Seq<char>, max: nat) -> Option<nat> {
    let b = unsigned_body(s);
    if b.len() > 0 && all_digits(b) && digits_value(b) <= max {
        Some(digits_value(b))
    } else {
        None
    }
}

/// `FromStr` of a signed integer type with the range `min..=max`.
pub open spec fn parse_signed(s: Seq<char>, min: int, max: int) -> Option<int> {
    if s.len() > 0 && s[0] == '-' {
        let b = s.drop_first();
        if b.len() > 0 && all_digits(b) && min <= -(digits_value(b) as int) {
            Some(-(digits_value(b) as int))
        } else {
            None
        }
    } else {
        match parse_unsigned(s, max as nat) {
            Some(v) => if max >= 0 {
                Some(v as int)
            } else {
                None
            },
            None => None,
        }
    }
}

/// Decimal digits of a natural number, without leading zeros.
pub open spec fn decimal(n: nat) -> Seq<char>
    decreases n,
{
    if n < 10 {
        seq![digit_char(n)]
    } else {
        decimal(n / 10).push(digit_char(n % 10))
    }
}

/// Decimal text of an integer, with a minus sign when negative.
pub open spec fn signed_decimal(n: int) -> Seq<char> {
    if n < 0 {
        seq!['-'] + decimal((-n) as nat)
    } else {
        decimal(n as nat)
    }
}

pub proof fn lemma_decimal(n: nat)
    ensures
        decimal(n).len() > 0,
        all_digits(decimal(n)),
        digits_value(decimal(n)) == n,
        decimal(n)[0] != '+' && decimal(n)[0] != '-',
    decreases n,
{
    assert(digit_val(digit_char(n % 10)) == n % 10);
    if n >= 10 {
        lemma_decimal(n / 10);
        let d = decimal(n / 10);
        assert(decimal(n).drop_last() =~= d);
        assert((n / 10) * 10 + n % 10 == n) by (nonlinear_arith);
        assert(decimal(n).last() == digit_char(n % 10));
        assert(digits_value(decimal(n)) == digits_value(d) * 10 + digit_val(digit_char(n % 10)));
    } else {
        assert(digit_val(digit_char(n)) == n);
        assert(decimal(n).drop_last() =~= Seq::<char>::empty());
        assert(digits_value(Seq::<char>::empty()) == 0);
    }
}

/// Reading back what was written gives the number that was written.
pub proof fn lemma_parse_unsigned_decimal(n: nat, max: nat)
    requires
        n <= max,
    ensures
        parse_unsigned(decimal(n), max) == Some(n),
{
    lemma_decimal(n);
}

/// Reading back what was written gives the number that was written.
pub proof fn lemma_parse_signed_decimal(n: int, min: int, max: int)
    requires
        min <= n <= max,
    ensures
        parse_signed(signed_decimal(n), min, max) == Some(n),
{
    if n < 0 {
        lemma_decimal((-n) as nat);
        assert((seq!['-'] + decimal((-n) as nat)).drop_first() =~= decimal((-n) as nat));
    } else {
        lemma_decimal(n as nat);
    }
}

proof fn lemma_digits_prefix(s: Seq<char>, k: int)
    requires
        0 <= k <= s.len(),
        all_digits(s),
    ensures
        digits_value(s.take(k)) <= digits_value(s),
    decreases s.len() - k,
{
    if k < s.len() {
        lemma_digits_prefix(s, k + 1);
        assert(s.take(k + 1).drop_last() =~= s.take(k));
    } else {
        assert(s.take(k) =~= s);
    }
}

/// Value of the digits in `v[from..]`, or nothing when that range is empty,
/// holds another character, or exceeds `max`.
fn parse_digits(v: &[char], from: usize, max: u64) -> (r: Option<u64>)
    requires
        from <= v@.len(),
    ensures
        ({
            let b = v@.skip(from as int);
            r == (if b.len() > 0 && all_digits(b) && digits_value(b) <= max {
                Some(digits_value(b) as u64)
            } else {
                None
            })
        }),
{
    let ghost b = v@.skip(from as int);
    if from >= v.len() {
        return None;
    }
    let mut acc: u128 = 0;
    let mut i = from;
    while i < v.len()
        invariant
            from <= i <= v@.len(),
            b == v@.skip(from as int),
            all_digits(b.take(i - from)),
            acc == digits_value(b.take(i - from)),
            acc <= max,
        decreases v@.len() - i,
    {
        let c = v[i];
        if !('0' <= c && c <= '9') {
            assert(!is_digit(b[i - from]));
            return None;
        }
        let d = (c as u32) - ('0' as u32);
        acc = acc * 10 + d as u128;
        proof {
            assert(b.take(i + 1 - from).drop_last() =~= b.take(i - from));
            assert(all_digits(b.take(i + 1 - from)));
        }
        i += 1;
        if acc > max as u128 {
            proof {
                if all_digits(b) {
                    lemma_digits_prefix(b, i - from);
                }
            }
            return None;
        }
    }
    assert(b.take(i - from) =~= b);
    Some(acc as u64)
}

/// `u32::from_str` and its siblings, for a type whose largest value is `max`.
pub fn parse_unsigned_chars(v: &[char], max: u64) -> (r: Option<u64>)
    ensures
        r matches Some(x) ==> parse_unsigned(v@, max as nat) == Some(x as nat),
        r is None ==> parse_unsigned(v@, max as nat) is None,
{
    if v.len() > 0 && v[0] == '+' {
        assert(v@.skip(1) =~= v@.drop_first());
        parse_digits(v, 1, max)
    } else {
        assert(v@.skip(0) =~= v@);
        parse_digits(v, 0, max)
    }
}

/// `i32::from_str` and its siblings, for the range `min..=max`.
pub fn parse_signed_chars(v: &[char], min: i64, max: i64) -> (r: Option<i64>)
    requires
        min <= 0 <= max,
    ensures
        r matches Some(x) ==> parse_signed(v@, min as int, max as int) == Some(x as int),
        r is None ==> parse_signed(v@, min as int, max as int) is None,
{
    if v.len() > 0 && v[0] == '-' {
        assert(v@.skip(1) =~= v@.drop_first());
        let bound: u64 = (0i128 - min as i128) as u64;
        match parse_digits(v, 1, bound) {
            Some(x) => Some((0i128 - x as i128) as i64),
            None => None,
        }
    } else {
        match parse_unsigned_chars(v, max as u64) {
            Some(x) => Some(x as i64),
            None => None,
        }
    }
}

fn digit_of(d: u64) -> (c: char)
    requires
        d < 10,
    ensures
        c == digit_char(d as nat),
{
    let b: u8 = 48u8 + d as u8;
    b as char
}

/// Appends the decimal digits of `n`.
pub fn push_decimal(out: &mut String, n: u64)
    ensures
        final(out)@ == old(out)@ + decimal(n as nat),
    decreases n,
{
    if n >= 10 {
        push_decimal(out, n / 10);
    }
    push_char(out, digit_of(n % 10));
    assert(old(out)@ + decimal(n as nat) =~= final(out)@) by {
        if n >= 10 {
            assert(decimal(n as nat) == decimal((n / 10) as nat).push(digit_char((n % 10) as nat)));
        }
    }
}

/// `u64::to_string`.
pub fn format_unsigned(n: u64) -> (s: String)
    ensures
        s@ == decimal(n as nat),
{
    let mut s = String::new();
    push_decimal(&mut s, n);
    assert(Seq::<char>::empty() + decimal(n as nat) =~= decimal(n as nat));
    s
}

/// `i64::to_string`.
pub fn format_signed(n: i64) -> (s: String)
    ensures
        s@ == signed_decimal(n as int),
{
    let mut s = String::new();
    if n < 0 {
        push_char(&mut s, '-');
        let m: u64 = (0i128 - n as i128) as u64;
        push_decimal(&mut s, m);
    } else {
        push_decimal(&mut s, n as u64);
        assert(Seq::<char>::empty() + decimal(n as nat) =~= decimal(n as nat));
    }
    s
}


// ------------------------------------------------------------------ hex

/// Value of a hexadecimal digit of either case.
pub open spec fn hex_val(c: char) -> Option<nat> {
    if '0' <= c && c <= '9' {
        Some(((c as u32) - ('0' as u32)) as nat)
    } else if 'a' <= c && c <= 'f' {
        Some(((c as u32) - ('a' as u32) + 10) as nat)
    } else if 'A' <= c && c <= 'F' {
        Some(((c as u32) - ('A' as u32) + 10) as nat)
    } else {
        None
    }
}

pub open spec fn all_hex(s: Seq<char>) -> bool {
    forall|i: int| 0 <= i < s.len() ==> (#[trigger] hex_val(s[i])) is Some
}

/// Value of a run of hexadecimal digits.
pub open spec fn hex_value(s: Seq<char>) -> nat
    decreases s.len(),
{
    if s.len() == 0 {
        0
    } else {
        hex_value(s.drop_last()) * 16 + match hex_val(s.last()) {
            Some(d) => d,
            None => 0,
        }
    }
}

/// `from_str_radix` with radix 16 for an unsigned type whose largest value is
/// `max`: an optional plus sign, then at least one digit of either case.
pub open spec fn parse_hex(s: Seq<char>, max: nat) -> Option<nat> {
    let b = unsigned_body(s);
    if b.len() > 0 && all_hex(b) && hex_value(b) <= max {
        Some(hex_value(b))
    } else {
        None
    }
}

/// Upper case hexadecimal digit.
pub open spec fn hex_char(d: nat) -> char {
    if d < 10 {
        (('0' as u32) + d) as char
    } else {
        (('A' as u32) + d - 10) as char
    }
}

/// Upper case hexadecimal digits of a number, without leading zeros.
pub open spec fn hex_upper(n: nat) -> Seq<char>
    decreases n,
{
    if n < 16 {
        seq![hex_char(n)]
    } else {
        hex_upper(n / 16).push(hex_char(n % 16))
    }
}

/// Zeros in front of a text shorter than `width`, as the `0` flag of a
/// format width does.
pub open spec fn pad_zeros(s: Seq<char>, width: nat) -> Seq<char> {
    if s.len() >= width {
        s
    } else {
        Seq::new((width - s.len()) as nat, |i: int| '0') + s
    }
}

proof fn lemma_hex_upper(n: nat)
    ensures
        hex_upper(n).len() > 0,
        all_hex(hex_upper(n)),
        hex_value(hex_upper(n)) == n,
        hex_upper(n)[0] != '+',
        forall|i: int| 0 <= i < hex_upper(n).len() ==> {
            let c = #[trigger] hex_upper(n)[i];
            ('0' <= c && c <= '9') || ('A' <= c && c <= 'F')
        },
    decreases n,
{
    assert(hex_val(hex_char(n % 16)) == Some(n % 16));
    if n >= 16 {
        lemma_hex_upper(n / 16);
        let d = hex_upper(n / 16);
        assert(hex_upper(n).drop_last() =~= d);
        assert(hex_upper(n).last() == hex_char(n % 16));
        assert(hex_upper(n)[0] == d[0]);
        assert((n / 16) * 16 + n % 16 == n) by (nonlinear_arith);
        assert forall|i: int| 0 <= i < hex_upper(n).len() implies (#[trigger] hex_val(hex_upper(n)[i])) is Some by {
            if i < d.len() {
                assert(hex_upper(n)[i] == d[i]);
            }
        }
    } else {
        assert(hex_val(hex_char(n)) == Some(n));
        assert(hex_upper(n).drop_last() =~= Seq::<char>::empty());
        assert(hex_upper(n).last() == hex_char(n));
        assert(hex_value(Seq::<char>::empty()) == 0);
    }
}

proof fn lemma_hex_zeros(z: Seq<char>, s: Seq<char>)
    requires
        forall|i: int| 0 <= i < z.len() ==> z[i] == '0',
    ensures
        hex_value(z + s) == hex_value(s),
    decreases z.len() + s.len(),
{
    if s.len() == 0 {
        assert(z + s =~= z);
        if z.len() > 0 {
            lemma_hex_zeros(z.drop_last(), s);
            assert(z.drop_last() + s =~= z.drop_last());
        }
    } else {
        lemma_hex_zeros(z, s.drop_last());
        assert((z + s).drop_last() =~= z + s.drop_last());
    }
}

/// The padded hexadecimal text of a number reads as that number.
pub proof fn lemma_parse_hex_padded(n: nat, width: nat, max: nat)
    requires
        n <= max,
    ensures
        parse_hex(pad_zeros(hex_upper(n), width), max) == Some(n),
        forall|i: int| 0 <= i < pad_zeros(hex_upper(n), width).len() ==> {
            let c = #[trigger] pad_zeros(hex_upper(n), width)[i];
            ('0' <= c && c <= '9') || ('A' <= c && c <= 'F')
        },
        pad_zeros(hex_upper(n), width).len() > 0,
{
    lemma_hex_upper(n);
    let h = hex_upper(n);
    let p = pad_zeros(h, width);
    if h.len() < width {
        let z = Seq::new((width - h.len()) as nat, |i: int| '0');
        lemma_hex_zeros(z, h);
        assert(p =~= z + h);
        assert forall|i: int| 0 <= i < p.len() implies (#[trigger] hex_val(p[i])) is Some by {
            if i >= z.len() {
                assert(p[i] == h[i - z.len()]);
            }
        }
        assert forall|i: int| 0 <= i < p.len() implies {
            let c = #[trigger] p[i];
            ('0' <= c && c <= '9') || ('A' <= c && c <= 'F')
        } by {
            if i >= z.len() {
                assert(p[i] == h[i - z.len()]);
            }
        }
    }
}

fn hex_digit_value(c: char) -> (r: Option<u64>)
    ensures
        r matches Some(d) ==> hex_val(c) == Some(d as nat) && d < 16,
        r is None ==> hex_val(c) is None,
{
    if '0' <= c && c <= '9' {
        Some(((c as u32) - ('0' as u32)) as u64)
    } else if 'a' <= c && c <= 'f' {
        Some(((c as u32) - ('a' as u32) + 10) as u64)
    } else if 'A' <= c && c <= 'F' {
        Some(((c as u32) - ('A' as u32) + 10) as u64)
    } else {
        None
    }
}

proof fn lemma_hex_prefix(s: Seq<char>, k: int)
    requires
        0 <= k <= s.len(),
        all_hex(s),
    ensures
        hex_value(s.take(k)) <= hex_value(s),
    decreases s.len() - k,
{
    if k < s.len() {
        lemma_hex_prefix(s, k + 1);
        assert(s.take(k + 1).drop_last() =~= s.take(k));
    } else {
        assert(s.take(k) =~= s);
    }
}

/// `from_str_radix(_, 16)` for an unsigned type whose largest value is `max`.
pub fn parse_hex_chars(v: &[char], max: u64) -> (r: Option<u64>)
    ensures
        r matches Some(x) ==> parse_hex(v@, max as nat) == Some(x as nat),
        r is None ==> parse_hex(v@, max as nat) is None,
{
    let from: usize = if v.len() > 0 && v[0] == '+' { 1 } else { 0 };
    let ghost b = v@.skip(from as int);
    assert(b =~= unsigned_body(v@));
    if from >= v.len() {
        return None;
    }
    let mut acc: u128 = 0;
    let mut i = from;
    while i < v.len()
        invariant
            from <= i <= v@.len(),
            b == v@.skip(from as int),
            b == unsigned_body(v@),
            all_hex(b.take(i - from)),
            acc == hex_value(b.take(i - from)),
            acc <= max,
        decreases v@.len() - i,
    {
        let d = match hex_digit_value(v[i]) {
            Some(d) => d,
            None => {
                assert(hex_val(b[i - from]) is None);
                return None;
            },
        };
        acc = acc * 16 + d as u128;
        proof {
            assert(b.take(i + 1 - from).drop_last() =~= b.take(i - from));
            assert(b.take(i + 1 - from).last() == b[i - from]);
            assert(all_hex(b.take(i + 1 - from)));
        }
        i += 1;
        if acc > max as u128 {
            proof {
                if all_hex(b) {
                    lemma_hex_prefix(b, i - from);
                }
            }
            return None;
        }
    }
    assert(b.take(i - from) =~= b);
    Some(acc as u64)
}

fn hex_digit_char(d: u64) -> (c: char)
    requires
        d < 16,
    ensures
        c == hex_char(d as nat),
{
    if d < 10 {
        let b: u8 = 48u8 + d as u8;
        b as char
    } else {
        let b: u8 = 55u8 + d as u8;
        b as char
    }
}

/// Upper case hexadecimal digits of `n`, without leading zeros.
fn hex_digits(n: u64) -> (r: Vec<char>)
    ensures
        r@ == hex_upper(n as nat),
    decreases n,
{
    let mut r = if n >= 16 {
        hex_digits(n / 16)
    } else {
        Vec::new()
    };
    r.push(hex_digit_char(n % 16));
    proof {
        if n >= 16 {
            assert(r@ =~= hex_upper((n / 16) as nat).push(hex_char((n % 16) as nat)));
        } else {
            assert(r@ =~= seq![hex_char(n as nat)]);
        }
    }
    r
}

/// `format!("{:0w$X}", n)`: upper case hexadecimal, zero padded to `width`.
pub fn format_hex_padded(n: u64, width: usize) -> (s: String)
    ensures
        s@ == pad_zeros(hex_upper(n as nat), width as nat),
{
    let digits = hex_digits(n);
    let mut s = String::new();
    let mut k: usize = digits.len();
    while k < width
        invariant
            digits.len() <= k <= width || (k == digits.len() && k >= width),
            s@ == Seq::new((k - digits.len()) as nat, |i: int| '0'),
        decreases width - k,
    {
        push_char(&mut s, '0');
        k += 1;
        assert(s@ =~= Seq::new((k - digits.len()) as nat, |i: int| '0'));
    }
    let ghost zeros = s@;
    let mut j: usize = 0;
    while j < digits.len()
        invariant
            j <= digits@.len(),
            s@ == zeros + digits@.take(j as int),
        decreases digits@.len() - j,
    {
        push_char(&mut s, digits[j]);
        assert(digits@.take(j + 1) =~= digits@.take(j as int).push(digits@[j as int]));
        assert(s@ =~= zeros + digits@.take(j + 1));
        j += 1;
    }
    assert(digits@.take(j as int) =~= digits@);
    assert(s@ =~= pad_zeros(hex_upper(n as nat), width as nat));
    s
}

} // verus!
