//! Decoded text: how incoming characters become lines, and the bounded
//! history of finished lines.
//!
//! Text arrives one character at a time and has no structure of its own, so
//! it is broken into lines on a line feed and on a width limit. The history
//! keeps the newest lines and drops the oldest.

use vstd::prelude::*;
use std::collections::VecDeque;
use crate::number::{decimal, format_unsigned, pad_zeros};
use crate::text::{chars_of, push_char, push_str, string_of};

verus! {

/// Characters after which a line is broken even without a line feed. Chosen so
/// a line still fits a narrow panel at a large font.
pub const WRAP_WIDTH: usize = 96;

/// Lines under construction at once. One more than the channel ceiling, so the
/// teleprinter path always has a slot of its own.
pub const MAX_PENDING: usize = 20;

/// A line under construction after more text arrives, and the lines finished
/// on the way: a line feed finishes a line that holds anything, another
/// control character is dropped, and a line reaching `wrap` characters is
/// finished.
pub open spec fn assemble(pending: Seq<char>, text: Seq<char>, wrap: nat) -> (Seq<char>, Seq<Seq<char>>)
    decreases text.len(),
{
    if text.len() == 0 {
        (pending, Seq::empty())
    } else {
        let (p, done) = assemble(pending, text.drop_last(), wrap);
        let c = text.last();
        if c == '\n' {
            if p.len() > 0 {
                (Seq::empty(), done.push(p))
            } else {
                (p, done)
            }
        } else if (c as u32) < 0x20 {
            (p, done)
        } else {
            let q = p.push(c);
            if q.len() >= wrap {
                (Seq::empty(), done.push(q))
            } else {
                (q, done)
            }
        }
    }
}

/// Adds decoded text to the line under construction and returns the lines it
/// finished, in order.
pub fn assemble_text(pending: &mut String, text: &str) -> (done: Vec<String>)
    ensures
        (final(pending)@, done@.map_values(|s: String| s@)) == assemble(old(pending)@, text@, WRAP_WIDTH as nat),
{
    let t = chars_of(text);
    let mut cur = chars_of(pending.as_str());
    let mut done: Vec<String> = Vec::new();
    let ghost start = old(pending)@;
    let mut i: usize = 0;
    while i < t.len()
        invariant
            i <= t@.len(),
            t@ == text@,
            (cur@, done@.map_values(|s: String| s@)) == assemble(start, t@.take(i as int), WRAP_WIDTH as nat),
        decreases t@.len() - i,
    {
        let c = t[i];
        assert(t@.take(i + 1).drop_last() =~= t@.take(i as int));
        assert(t@.take(i + 1).last() == c);
        let ghost before = done@.map_values(|s: String| s@);
        if c == '\n' {
            if cur.len() > 0 {
                let line = string_of(cur.as_slice());
                done.push(line);
                cur = Vec::new();
                assert(done@.map_values(|s: String| s@) =~= before.push(line@));
            }
        } else if (c as u32) < 0x20 {
        } else {
            cur.push(c);
            if cur.len() >= WRAP_WIDTH {
                let line = string_of(cur.as_slice());
                done.push(line);
                cur = Vec::new();
                assert(done@.map_values(|s: String| s@) =~= before.push(line@));
            }
        }
        assert(cur@ =~= assemble(start, t@.take(i + 1), WRAP_WIDTH as nat).0);
        i += 1;
    }
    assert(t@.take(i as int) =~= text@);
    *pending = string_of(cur.as_slice());
    done
}

/// Two digits of a clock field, with a leading zero.
fn two_digits(out: &mut String, n: u16)
    ensures
        final(out)@ == old(out)@ + pad_zeros(decimal(n as nat), 2),
{
    let d = format_unsigned(n as u64);
    if n < 10 {
        push_char(out, '0');
        assert(decimal(n as nat).len() == 1);
        assert(seq!['0'] + decimal(n as nat) =~= pad_zeros(decimal(n as nat), 2));
    } else {
        assert(decimal(n as nat).len() >= 2) by {
            assert(decimal(n as nat) == decimal((n / 10) as nat).push(crate::number::digit_char((n % 10) as nat)));
            crate::number::lemma_decimal((n / 10) as nat);
        }
    }
    push_str(out, d.as_str());
    assert(final(out)@ =~= old(out)@ + pad_zeros(decimal(n as nat), 2));
}

/// Hours and minutes, with the marker that says which clock.
///
/// The marker costs one character and removes the one ambiguity a stamp can
/// carry. A reader who assumes the wrong clock is out by a whole number of
/// hours, which is worse than no stamp because it looks correct.
pub fn clock_stamp(hour: u16, minute: u16) -> (r: String)
    ensures
        r@ == pad_zeros(decimal(hour as nat), 2) + pad_zeros(decimal(minute as nat), 2) + seq!['z'],
{
    let mut out = String::new();
    two_digits(&mut out, hour);
    two_digits(&mut out, minute);
    push_char(&mut out, 'z');
    assert(out@ =~= pad_zeros(decimal(hour as nat), 2) + pad_zeros(decimal(minute as nat), 2) + seq!['z']);
    out
}

/// Hours, minutes and seconds separated by colons, with the clock marker.
pub fn clock_stamp_full(hour: u16, minute: u16, second: u16) -> (r: String)
    ensures
        r@ == pad_zeros(decimal(hour as nat), 2) + seq![':'] + pad_zeros(decimal(minute as nat), 2) + seq![':']
            + pad_zeros(decimal(second as nat), 2) + seq!['Z'],
{
    let mut out = String::new();
    two_digits(&mut out, hour);
    push_char(&mut out, ':');
    two_digits(&mut out, minute);
    push_char(&mut out, ':');
    two_digits(&mut out, second);
    push_char(&mut out, 'Z');
    assert(out@ =~= pad_zeros(decimal(hour as nat), 2) + seq![':'] + pad_zeros(decimal(minute as nat), 2)
        + seq![':'] + pad_zeros(decimal(second as nat), 2) + seq!['Z']);
    out
}

/// Finished lines, oldest first, bounded: the oldest is discarded to make
/// room. Counts every line that went through it.
pub struct History<T> {
    lines: VecDeque<T>,
    limit: usize,
    appended: u64,
}

/// The lines a bounded history holds after one more is added.
pub open spec fn kept<T>(lines: Seq<T>, limit: nat, line: T) -> Seq<T> {
    if lines.len() >= limit {
        lines.drop_first().push(line)
    } else {
        lines.push(line)
    }
}

impl<T> History<T> {
    /// The lines held, oldest first.
    pub closed spec fn view(&self) -> Seq<T> {
        self.lines@
    }

    /// The most lines held at once.
    pub closed spec fn capacity(&self) -> nat {
        self.limit as nat
    }

    /// Lines appended since the history was created.
    pub closed spec fn total(&self) -> nat {
        self.appended as nat
    }

    pub closed spec fn wf(&self) -> bool {
        self.lines@.len() <= self.limit && self.limit >= 16
    }

    /// A history of at most `limit` lines, and never fewer than sixteen.
    pub fn new(limit: usize) -> (r: History<T>)
        ensures
            r.wf(),
            r.view() == Seq::<T>::empty(),
            r.capacity() == if limit < 16 { 16 } else { limit as nat },
            r.total() == 0,
    {
        let cap = if limit < 4096 { limit } else { 4096 };
        History { lines: VecDeque::with_capacity(cap), limit: if limit < 16 { 16 } else { limit }, appended: 0 }
    }

    pub fn len(&self) -> (r: usize)
        ensures
            r == self.view().len(),
    {
        self.lines.len()
    }

    /// Lines appended since the history was created.
    ///
    /// The buffer discards its oldest, so its length says nothing about how many
    /// lines have gone through it. A consumer that wants to see each finished
    /// line exactly once compares against this rather than against the length.
    pub fn appended(&self) -> (r: u64)
        ensures
            r == self.total(),
    {
        self.appended
    }

    /// The line at a position, oldest first.
    pub fn get(&self, i: usize) -> (r: &T)
        requires
            i < self.view().len(),
        ensures
            *r == self.view()[i as int],
    {
        &self.lines[i]
    }

    /// Adds a finished line, dropping the oldest when the history is full.
    pub fn push(&mut self, line: T)
        requires
            old(self).wf(),
            old(self).total() < u64::MAX,
        ensures
            final(self).wf(),
            final(self).view() == kept(old(self).view(), old(self).capacity(), line),
            final(self).capacity() == old(self).capacity(),
            final(self).total() == old(self).total() + 1,
    {
        if self.lines.len() >= self.limit {
            let _ = self.lines.pop_front();
        }
        self.lines.push_back(line);
        self.appended = self.appended + 1;
        assert(self.view() =~= kept(old(self).view(), old(self).capacity(), line));
    }

    pub fn clear(&mut self)
        requires
            old(self).wf(),
        ensures
            final(self).wf(),
            final(self).view() == Seq::<T>::empty(),
            final(self).capacity() == old(self).capacity(),
            final(self).total() == old(self).total(),
    {
        self.lines.clear();
    }
}

/// What the history is for: after any run of additions it holds the newest
/// lines, as many as fit, in the order they came.
pub proof fn lemma_history_holds_the_newest<T>(all: Seq<T>, held: Seq<T>, limit: nat, line: T)
    requires
        limit >= 1,
        held == all.skip(all.len() - if all.len() < limit { all.len() as int } else { limit as int }),
    ensures
        ({
            let all2 = all.push(line);
            kept(held, limit, line) == all2.skip(all2.len() - if all2.len() < limit { all2.len() as int } else { limit as int })
        }),
{
    let all2 = all.push(line);
    if all.len() >= limit {
        assert(kept(held, limit, line) =~= all2.skip(all2.len() - limit));
    } else if all2.len() <= limit {
        assert(held =~= all);
        assert(kept(held, limit, line) =~= all2.skip(0));
    } else {
        assert(kept(held, limit, line) =~= all2.skip(all2.len() - limit));
    }
}

} // verus!
