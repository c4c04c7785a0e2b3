//! Framing of the phase shift keyed text mode.
//!
//! The demodulator turns phase reversals into bits; this is the step that turns
//! bits into codes. A nought is tentatively part of the code, because a single
//! nought is legitimate inside one and only a pair ends it. The tentative one is
//! taken back when the second arrives, which is the whole of the framing: no
//! counter, no length field and nothing to resynchronize.

use vstd::prelude::*;
use crate::decode::varicode::{
    char_index, framing_safe, is_code, lemma_code_resolves, lemma_codes_are_framing_safe,
    lemma_packed_bits, packed_bits, packed_value, spec_decode, MAX_BITS, TABLE, TABLE_LEN,
};

verus! {

/// Accumulated code, its length, and the run of noughts that ends it.
pub struct FramingState {
    pub bits: u16,
    pub len: u32,
    pub zeros: u32,
}

/// One bit folded into the framing; the code it completes, if any.
pub open spec fn step(s: FramingState, bit: bool) -> (FramingState, Option<u16>) {
    if bit {
        let b2 = ((s.bits << 1u16) | 1u16) as u16;
        let l2 = s.len + 1;
        // Longer than the longest code, so this is noise being assembled
        // rather than a character arriving.
        if l2 > MAX_BITS {
            (FramingState { bits: 0, len: 0, zeros: 0 }, None)
        } else {
            (FramingState { bits: b2, len: l2 as u32, zeros: 0 }, None)
        }
    } else {
        let z: u32 = if s.zeros == u32::MAX {
            s.zeros
        } else {
            (s.zeros + 1) as u32
        };
        if z == 1 {
            let b2 = (s.bits << 1u16) as u16;
            let l2 = s.len + 1;
            if l2 > MAX_BITS + 1 {
                (FramingState { bits: 0, len: 0, zeros: z }, None)
            } else {
                (FramingState { bits: b2, len: l2 as u32, zeros: z }, None)
            }
        } else {
            // The boundary: the tentative nought is removed and what is left
            // is the code, which needs at least one bit to be one.
            let out = if s.len >= 2 {
                Some((s.bits >> 1u16) as u16)
            } else {
                None
            };
            (FramingState { bits: 0, len: 0, zeros: z }, out)
        }
    }
}

/// Bits folded in order; the final state and every code completed.
pub open spec fn run(s: FramingState, bits: Seq<bool>) -> (FramingState, Seq<u16>)
    decreases bits.len(),
{
    if bits.len() == 0 {
        (s, Seq::empty())
    } else {
        let prev = run(s, bits.drop_last());
        let next = step(prev.0, bits.last());
        (
            next.0,
            match next.1 {
                Some(c) => prev.1.push(c),
                None => prev.1,
            },
        )
    }
}

/// The table holds a code for the character.
pub open spec fn in_table(ch: char) -> bool {
    exists|j: int| 0 <= j < TABLE_LEN && TABLE@[j].1 == ch
}

/// Nothing accumulated: the state after a boundary, or at the start.
pub open spec fn idle(s: FramingState) -> bool {
    s.bits == 0 && s.len == 0
}

/// The bits a code is sent as, first character first.
pub open spec fn code_bits(c: Seq<char>) -> Seq<bool> {
    Seq::new(c.len(), |i: int| c[i] == '1')
}

/// The code the table gives a character.
pub open spec fn char_code(ch: char) -> Seq<char> {
    TABLE@[char_index(ch)].0@
}

/// A text as it is sent: each character's code followed by the pair of
/// noughts that ends it.
pub open spec fn transmission(t: Seq<char>) -> Seq<bool>
    decreases t.len(),
{
    if t.len() == 0 {
        Seq::empty()
    } else {
        transmission(t.drop_last()) + code_bits(char_code(t.last())) + seq![false, false]
    }
}

proof fn lemma_run_concat(s: FramingState, a: Seq<bool>, b: Seq<bool>)
    ensures
        run(s, a + b) == (run(run(s, a).0, b).0, run(s, a).1 + run(run(s, a).0, b).1),
    decreases b.len(),
{
    if b.len() == 0 {
        assert(a + b =~= a);
        assert(run(s, a).1 + Seq::<u16>::empty() =~= run(s, a).1);
    } else {
        lemma_run_concat(s, a, b.drop_last());
        assert((a + b).drop_last() =~= a + b.drop_last());
        let mid = run(s, a);
        let inner = run(mid.0, b.drop_last());
        let nx = step(inner.0, b.last());
        match nx.1 {
            Some(c) => {
                assert(mid.1 + inner.1.push(c) =~= (mid.1 + inner.1).push(c));
            },
            None => {},
        }
    }
}

proof fn lemma_framing_safe_pairs(c: Seq<char>)
    requires
        framing_safe(c),
    ensures
        forall|i: int| 0 <= i < c.len() ==> (#[trigger] c[i] == '0' || c[i] == '1'),
        forall|i: int| 0 <= i < c.len() - 1 ==> !(#[trigger] c[i] == '0' && c[i + 1] == '0'),
    decreases c.len(),
{
    if c.len() > 0 {
        let r = c.drop_first();
        lemma_framing_safe_pairs(r);
        assert forall|i: int| 0 <= i < c.len() implies (#[trigger] c[i] == '0' || c[i] == '1') by {
            if i > 0 {
                assert(c[i] == r[i - 1]);
            }
        }
        assert forall|i: int| 0 <= i < c.len() - 1 implies !(#[trigger] c[i] == '0' && c[i + 1]
            == '0') by {
            if i > 0 {
                assert(c[i] == r[i - 1]);
                assert(c[i + 1] == r[i]);
            }
        }
    }
}

proof fn lemma_shift_bits(x: u16)
    ensures
        ((x << 1u16) | 0u16) == (x << 1u16),
        x < 0x8000 ==> ((x << 1u16) >> 1u16) == x,
{
    assert(((x << 1u16) | 0u16) == (x << 1u16)) by (bit_vector);
    assert(x < 0x8000 ==> ((x << 1u16) >> 1u16) == x) by (bit_vector);
}

/// After the first `k` bits of a code the framing holds exactly those bits.
proof fn lemma_code_prefix(s: FramingState, c: Seq<char>, k: int)
    requires
        idle(s),
        is_code(c),
        1 <= k <= c.len(),
    ensures
        run(s, code_bits(c).take(k)) == (FramingState {
            bits: packed_bits(c.take(k)),
            len: k as u32,
            zeros: if c[k - 1] == '0' {
                1u32
            } else {
                0u32
            },
        }, Seq::<u16>::empty()),
    decreases k,
{
    let cb = code_bits(c);
    lemma_framing_safe_pairs(c);
    assert(cb.take(k).drop_last() =~= cb.take(k - 1));
    assert(c.take(k).drop_last() =~= c.take(k - 1));
    if k == 1 {
        assert(cb.take(0) =~= Seq::<bool>::empty());
        assert(c.take(0) =~= Seq::<char>::empty());
        assert(((0u16 << 1u16) | 1u16) == 1u16) by (bit_vector);
    } else {
        lemma_code_prefix(s, c, k - 1);
        let prev = run(s, cb.take(k - 1)).0;
        lemma_shift_bits(prev.bits);
        if c[k - 1] == '0' {
            assert(c[k - 2] == '1');
        }
    }
}

/// A code followed by the boundary comes out of the framing as its packed
/// form, and leaves the framing idle.
proof fn lemma_code_framed(s: FramingState, c: Seq<char>)
    requires
        idle(s),
        is_code(c),
    ensures
        run(s, code_bits(c) + seq![false, false]) == (FramingState { bits: 0, len: 0, zeros: 2 }, seq![packed_bits(c)]),
{
    let cb = code_bits(c);
    let n = c.len() as int;
    lemma_code_prefix(s, c, n);
    assert(cb.take(n) =~= cb);
    assert(c.take(n) =~= c);
    let all = cb + seq![false, false];
    assert(all.drop_last() =~= cb + seq![false]);
    assert(all.drop_last().drop_last() =~= cb);
    let st = run(s, cb).0;
    assert(run(s, cb) == run(s, cb.take(n)));
    assert(c[n - 1] == '1');
    assert(st == FramingState { bits: packed_bits(c), len: n as u32, zeros: 0 });
    assert(run(s, cb).1 =~= Seq::<u16>::empty());
    lemma_packed_bits(c);
    vstd::arithmetic::power2::lemma2_to64();
    if n < 15 {
        vstd::arithmetic::power2::lemma_pow2_strictly_increases(c.len(), 15);
    }
    lemma_shift_bits(packed_bits(c));
    let st1 = FramingState { bits: (packed_bits(c) << 1u16) as u16, len: (n + 1) as u32, zeros: 1 };
    assert(step(st, false) == (st1, None::<u16>));
    assert((cb + seq![false]).drop_last() =~= cb);
    assert((cb + seq![false]).last() == false);
    assert(run(s, cb + seq![false]) == (st1, Seq::<u16>::empty()));
    assert(all.last() == false);
    assert(step(st1, false) == (FramingState { bits: 0, len: 0, zeros: 2 }, Some(packed_bits(c))));
    assert(Seq::<u16>::empty().push(packed_bits(c)) =~= seq![packed_bits(c)]);
}

proof fn lemma_first_occurrence(ch: char, w: int)
    requires
        0 <= w < TABLE_LEN,
        TABLE@[w].1 == ch,
    ensures
        exists|i: int|
            0 <= i < TABLE_LEN && TABLE@[i].1 == ch && forall|j: int| 0 <= j < i ==> TABLE@[j].1 != ch,
    decreases w,
{
    if exists|j: int| 0 <= j < w && TABLE@[j].1 == ch {
        let j = choose|j: int| 0 <= j < w && TABLE@[j].1 == ch;
        lemma_first_occurrence(ch, j);
    } else {
        assert(forall|j: int| 0 <= j < w ==> TABLE@[j].1 != ch);
    }
}

proof fn lemma_char_code(ch: char)
    requires
        in_table(ch),
    ensures
        0 <= char_index(ch) < TABLE_LEN,
        TABLE@[char_index(ch)].1 == ch,
        is_code(char_code(ch)),
        spec_decode(packed_bits(char_code(ch))) == Some(ch),
{
    let w = choose|i: int| 0 <= i < TABLE_LEN && TABLE@[i].1 == ch;
    lemma_first_occurrence(ch, w);
    lemma_codes_are_framing_safe();
    let ci = char_index(ch);
    assert(is_code(TABLE@[ci].0@));
    lemma_code_resolves(ci);
}

/// A transmission decodes back to its text: every character the table holds,
/// sent as its code and a boundary, comes out of the framing as a code that
/// the alphabet resolves to that character, and nothing else comes out.
#[verifier::rlimit(40)]
pub proof fn lemma_transmission_decodes(s: FramingState, t: Seq<char>)
    requires
        idle(s),
        forall|i: int| 0 <= i < t.len() ==> in_table(#[trigger] t[i]),
    ensures
        run(s, transmission(t)).1.len() == t.len(),
        forall|i: int| 0 <= i < t.len() ==> spec_decode(#[trigger] run(s, transmission(t)).1[i]) == Some(t[i]),
        t.len() > 0 ==> idle(run(s, transmission(t)).0),
        t.len() == 0 ==> run(s, transmission(t)).0 == s,
    decreases t.len(),
{
    if t.len() > 0 {
        let p = t.drop_last();
        assert forall|i: int| 0 <= i < p.len() implies in_table(#[trigger] p[i]) by {
            assert(p[i] == t[i]);
        }
        lemma_transmission_decodes(s, p);
        let ch = t.last();
        assert(t[t.len() - 1] == ch);
        lemma_char_code(ch);
        let mid = run(s, transmission(p));
        let code = char_code(ch);
        let tail = code_bits(code) + seq![false, false];
        assert(transmission(t) =~= transmission(p) + tail);
        lemma_run_concat(s, transmission(p), tail);
        lemma_code_framed(mid.0, code);
        let out = run(s, transmission(t)).1;
        assert(out =~= mid.1 + seq![packed_bits(code)]);
        assert forall|i: int| 0 <= i < t.len() implies spec_decode(#[trigger] out[i]) == Some(t[i]) by {
            if i < p.len() {
                assert(out[i] == mid.1[i]);
                assert(t[i] == p[i]);
            }
        }
    }
}

/// Bit framing state machine of the decoder.
pub struct Framing {
    bits: u16,
    len: u32,
    zeros: u32,
}

impl View for Framing {
    type V = FramingState;

    closed spec fn view(&self) -> FramingState {
        FramingState { bits: self.bits, len: self.len, zeros: self.zeros }
    }
}

impl Framing {
    #[verifier::type_invariant]
    spec fn bounded(self) -> bool {
        self.len <= MAX_BITS + 1
    }

    pub fn new() -> (r: Framing)
        ensures
            r@ == (FramingState { bits: 0, len: 0, zeros: 0 }),
    {
        Framing { bits: 0, len: 0, zeros: 0 }
    }

    /// Drops whatever was being accumulated.
    pub fn reset(&mut self)
        ensures
            final(self)@ == (FramingState { bits: 0, len: 0, zeros: 0 }),
    {
        *self = Framing { bits: 0, len: 0, zeros: 0 };
    }

    /// Folds one bit into the framing and returns the code it completes.
    pub fn accept(&mut self, bit: bool) -> (r: Option<u16>)
        ensures
            (final(self)@, r) == step(old(self)@, bit),
    {
        proof {
            use_type_invariant(&*self);
        }
        if bit {
            let bits = (self.bits << 1) | 1;
            let len = self.len + 1;
            if len > MAX_BITS {
                *self = Framing { bits: 0, len: 0, zeros: 0 };
            } else {
                *self = Framing { bits, len, zeros: 0 };
            }
            return None;
        }
        let zeros = self.zeros.saturating_add(1);
        if zeros == 1 {
            let bits = self.bits << 1;
            let len = self.len + 1;
            if len > MAX_BITS + 1 {
                *self = Framing { bits: 0, len: 0, zeros };
            } else {
                *self = Framing { bits, len, zeros };
            }
            return None;
        }
        let out = if self.len >= 2 {
            Some(self.bits >> 1)
        } else {
            None
        };
        *self = Framing { bits: 0, len: 0, zeros };
        out
    }
}

} // verus!
