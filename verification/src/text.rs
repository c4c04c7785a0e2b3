//! Character level helpers shared by the configuration reader and the
//! decoders: conversions between strings and character vectors, ASCII case
//! folding, Unicode whitespace trimming, and decimal numbers.

use vstd::prelude::*;

verus! {

// ------------------------------------------------------------ conversions

/// Appends one character to a string (std `String::push`).
#[verifier::external_body]
pub(crate) fn push_char(s: &mut String, c: char)
    ensures
        final(s)@ == old(s)@.push(c),
{
    s.push(c)
}

/// Characters of a string slice, in order.
pub fn chars_of(s: &str) -> (v: Vec<char>)
    ensures
        v@ == s@,
{
    let mut v: Vec<char> = Vec::new();
    for c in it: s.chars()
        invariant
            v@ == it.seq().take(it.index() as int),
    {
        v.push(c);
    }
    v
}

/// A string holding the given characters.
pub fn string_of(v: &[char]) -> (s: String)
    ensures
        s@ == v@,
{
    let mut s = String::new();
    let mut i: usize = 0;
    while i < v.len()
        invariant
            i <= v@.len(),
            s@ == v@.take(i as int),
        decreases v@.len() - i,
    {
        push_char(&mut s, v[i]);
        assert(v@.take(i as int).push(v@[i as int]) =~= v@.take(i + 1));
        i += 1;
    }
    assert(v@.take(v@.len() as int) =~= v@);
    s
}

/// Copy of a range of characters.
pub fn copy_range(v: &[char], from: usize, to: usize) -> (r: Vec<char>)
    requires
        from <= to <= v@.len(),
    ensures
        r@ == v@.subrange(from as int, to as int),
{
    let mut r: Vec<char> = Vec::new();
    let mut i = from;
    while i < to
        invariant
            from <= i <= to <= v@.len(),
            r@ == v@.subrange(from as int, i as int),
        decreases to - i,
    {
        r.push(v[i]);
        assert(v@.subrange(from as int, i as int).push(v@[i as int]) =~= v@.subrange(
            from as int,
            i + 1,
        ));
        i += 1;
    }
    r
}

/// Appends characters to a string.
pub fn append_chars(s: &mut String, v: &[char])
    ensures
        final(s)@ == old(s)@ + v@,
{
    let mut i: usize = 0;
    while i < v.len()
        invariant
            i <= v@.len(),
            s@ == old(s)@ + v@.take(i as int),
        decreases v@.len() - i,
    {
        push_char(s, v[i]);
        assert(old(s)@ + v@.take(i as int) + seq![v@[i as int]] =~= old(s)@ + v@.take(i + 1));
        i += 1;
    }
    assert(v@.take(v@.len() as int) =~= v@);
}

// --------------------------------------------------------------- ASCII case

pub open spec fn lower(c: char) -> char {
    if 'A' <= c && c <= 'Z' {
        ((c as u32) + 32) as char
    } else {
        c
    }
}

pub open spec fn lower_seq(s: Seq<char>) -> Seq<char> {
    Seq::new(s.len(), |i: int| lower(s[i]))
}

/// Equal when compared with ASCII letters folded to one case.
pub open spec fn eq_ic(a: Seq<char>, b: Seq<char>) -> bool {
    a.len() == b.len() && forall|i: int| 0 <= i < a.len() ==> lower(#[trigger] a[i]) == lower(b[i])
}

pub proof fn lemma_eq_ic_refl(a: Seq<char>)
    ensures
        eq_ic(a, a),
{
}

pub proof fn lemma_eq_ic_sym(a: Seq<char>, b: Seq<char>)
    ensures
        eq_ic(a, b) == eq_ic(b, a),
{
}

pub proof fn lemma_eq_ic_trans(a: Seq<char>, b: Seq<char>, c: Seq<char>)
    requires
        eq_ic(a, b),
        eq_ic(b, c),
    ensures
        eq_ic(a, c),
{
    assert forall|i: int| 0 <= i < a.len() implies lower(#[trigger] a[i]) == lower(c[i]) by {
        assert(lower(a[i]) == lower(b[i]));
        assert(lower(b[i]) == lower(c[i]));
    }
}

/// Appends a string slice (std `String::push_str`).
#[verifier::external_body]
pub(crate) fn push_str(s: &mut String, t: &str)
    ensures
        final(s)@ == old(s)@ + t@,
{
    s.push_str(t)
}

/// ASCII lower case of one character (std `char::to_ascii_lowercase`).
pub fn lower_char(c: char) -> (r: char)
    ensures
        r == lower(c),
{
    if 'A' <= c && c <= 'Z' {
        let b: u8 = c as u8;
        (b + 32) as char
    } else {
        c
    }
}

/// ASCII lower case of every character.
pub fn lowercase(v: &[char]) -> (r: Vec<char>)
    ensures
        r@ == lower_seq(v@),
{
    let mut r: Vec<char> = Vec::new();
    let mut i: usize = 0;
    while i < v.len()
        invariant
            i <= v@.len(),
            r@ =~= lower_seq(v@.take(i as int)),
        decreases v@.len() - i,
    {
        r.push(lower_char(v[i]));
        i += 1;
        assert(r@ =~= lower_seq(v@.take(i as int)));
    }
    assert(v@.take(v@.len() as int) =~= v@);
    r
}

/// Case insensitive comparison for ASCII letters.
pub fn eq_ignore_case(a: &[char], b: &[char]) -> (r: bool)
    ensures
        r == eq_ic(a@, b@),
{
    if a.len() != b.len() {
        return false;
    }
    let mut i: usize = 0;
    while i < a.len()
        invariant
            a@.len() == b@.len(),
            i <= a@.len(),
            forall|k: int| 0 <= k < i ==> lower(#[trigger] a@[k]) == lower(b@[k]),
        decreases a@.len() - i,
    {
        if lower_char(a[i]) != lower_char(b[i]) {
            return false;
        }
        i += 1;
    }
    true
}

/// Exact comparison of two character sequences.
pub fn chars_eq(a: &[char], b: &[char]) -> (r: bool)
    ensures
        r == (a@ == b@),
{
    if a.len() != b.len() {
        return false;
    }
    let mut i: usize = 0;
    while i < a.len()
        invariant
            a@.len() == b@.len(),
            i <= a@.len(),
            forall|k: int| 0 <= k < i ==> #[trigger] a@[k] == b@[k],
        decreases a@.len() - i,
    {
        if a[i] != b[i] {
            return false;
        }
        i += 1;
    }
    assert(a@ =~= b@);
    true
}

/// Exact comparison of two string slices.
pub fn str_eq(a: &str, b: &str) -> (r: bool)
    ensures
        r == (a@ == b@),
{
    let va = chars_of(a);
    let vb = chars_of(b);
    chars_eq(va.as_slice(), vb.as_slice())
}

// ------------------------------------------------------------- whitespace

/// Unicode `White_Space`, the set `str::trim` removes.
pub open spec fn is_ws(c: char) -> bool {
    let u = c as u32;
    ||| 0x09 <= u <= 0x0D
    ||| u == 0x20
    ||| u == 0x85
    ||| u == 0xA0
    ||| u == 0x1680
    ||| 0x2000 <= u <= 0x200A
    ||| u == 0x2028
    ||| u == 0x2029
    ||| u == 0x202F
    ||| u == 0x205F
    ||| u == 0x3000
}

pub fn is_whitespace(c: char) -> (r: bool)
    ensures
        r == is_ws(c),
{
    let u = c as u32;
    (0x09 <= u && u <= 0x0D) || u == 0x20 || u == 0x85 || u == 0xA0 || u == 0x1680 || (0x2000
        <= u && u <= 0x200A) || u == 0x2028 || u == 0x2029 || u == 0x202F || u == 0x205F || u
        == 0x3000
}

/// First position at or after `i` that is not whitespace.
pub open spec fn skip_ws(s: Seq<char>, i: int) -> int
    decreases s.len() - i,
{
    if 0 <= i < s.len() && is_ws(s[i]) {
        skip_ws(s, i + 1)
    } else {
        i
    }
}

/// End of the range `lo..j` once trailing whitespace is removed.
pub open spec fn back_ws(s: Seq<char>, lo: int, j: int) -> int
    decreases j - lo,
{
    if lo < j && j <= s.len() && is_ws(s[j - 1]) {
        back_ws(s, lo, j - 1)
    } else {
        j
    }
}

pub open spec fn trim_start_at(s: Seq<char>) -> int {
    skip_ws(s, 0)
}

pub open spec fn trim_end_at(s: Seq<char>) -> int {
    back_ws(s, skip_ws(s, 0), s.len() as int)
}

/// `str::trim`.
pub open spec fn trim(s: Seq<char>) -> Seq<char> {
    s.subrange(trim_start_at(s), trim_end_at(s))
}

pub proof fn lemma_skip_ws_bounds(s: Seq<char>, i: int)
    requires
        0 <= i <= s.len(),
    ensures
        i <= skip_ws(s, i) <= s.len(),
        forall|k: int| i <= k < skip_ws(s, i) ==> is_ws(#[trigger] s[k]),
        skip_ws(s, i) < s.len() ==> !is_ws(s[skip_ws(s, i)]),
    decreases s.len() - i,
{
    if i < s.len() && is_ws(s[i]) {
        lemma_skip_ws_bounds(s, i + 1);
    }
}

pub proof fn lemma_back_ws_bounds(s: Seq<char>, lo: int, j: int)
    requires
        0 <= lo <= j <= s.len(),
    ensures
        lo <= back_ws(s, lo, j) <= j,
        forall|k: int| back_ws(s, lo, j) <= k < j ==> is_ws(#[trigger] s[k]),
        back_ws(s, lo, j) > lo ==> !is_ws(s[back_ws(s, lo, j) - 1]),
    decreases j - lo,
{
    if lo < j && is_ws(s[j - 1]) {
        lemma_back_ws_bounds(s, lo, j - 1);
    }
}

pub proof fn lemma_trim_bounds(s: Seq<char>)
    ensures
        0 <= trim_start_at(s) <= trim_end_at(s) <= s.len(),
        trim(s).len() == trim_end_at(s) - trim_start_at(s),
{
    lemma_skip_ws_bounds(s, 0);
    lemma_back_ws_bounds(s, skip_ws(s, 0), s.len() as int);
}

/// Text without whitespace is its own trimmed form.
pub proof fn lemma_trim_no_ws(s: Seq<char>)
    requires
        forall|i: int| 0 <= i < s.len() ==> !is_ws(#[trigger] s[i]),
    ensures
        trim(s) == s,
{
    assert(skip_ws(s, 0) == 0);
    if s.len() > 0 {
        assert(!is_ws(s[s.len() - 1]));
    }
    assert(back_ws(s, 0, s.len() as int) == s.len());
    assert(s.subrange(0, s.len() as int) =~= s);
}

/// Neither whitespace nor an upper case ASCII letter anywhere.
pub open spec fn plain_text(s: Seq<char>) -> bool
    decreases s.len(),
{
    if s.len() == 0 {
        true
    } else {
        !is_ws(s[0]) && !('A' <= s[0] && s[0] <= 'Z') && plain_text(s.drop_first())
    }
}

/// Plain text is unchanged by trimming and by folding to lower case.
pub proof fn lemma_plain_text(s: Seq<char>)
    requires
        plain_text(s),
    ensures
        trim(s) == s,
        lower_seq(s) == s,
        forall|i: int| 0 <= i < s.len() ==> !is_ws(#[trigger] s[i]) && lower(s[i]) == s[i],
    decreases s.len(),
{
    if s.len() > 0 {
        let r = s.drop_first();
        lemma_plain_text(r);
        assert forall|i: int| 0 <= i < s.len() implies !is_ws(#[trigger] s[i]) && lower(s[i]) == s[i] by {
            if i > 0 {
                assert(s[i] == r[i - 1]);
            }
        }
        lemma_trim_no_ws(s);
        assert(lower_seq(s) =~= s);
    } else {
        lemma_trim_no_ws(s);
        assert(lower_seq(s) =~= s);
    }
}

/// Two different plain texts differ also when ASCII case is ignored.
pub proof fn lemma_plain_apart(a: Seq<char>, b: Seq<char>)
    requires
        plain_text(a),
        plain_text(b),
        a != b,
    ensures
        !eq_ic(a, b),
{
    lemma_plain_text(a);
    lemma_plain_text(b);
    if eq_ic(a, b) {
        assert forall|i: int| 0 <= i < a.len() implies a[i] == b[i] by {
            assert(lower(a[i]) == lower(b[i]));
        }
        assert(a =~= b);
    }
}

/// Bounds of the trimmed range.
pub fn trim_range(v: &[char]) -> (r: (usize, usize))
    ensures
        r.0 == trim_start_at(v@),
        r.1 == trim_end_at(v@),
        r.0 <= r.1 <= v@.len(),
{
    let mut i: usize = 0;
    while i < v.len() && is_whitespace(v[i])
        invariant
            i <= v@.len(),
            skip_ws(v@, i as int) == skip_ws(v@, 0),
        decreases v@.len() - i,
    {
        i += 1;
    }
    let mut j: usize = v.len();
    while j > i && is_whitespace(v[j - 1])
        invariant
            i <= j <= v@.len(),
            i == skip_ws(v@, 0),
            back_ws(v@, i as int, j as int) == back_ws(v@, i as int, v@.len() as int),
        decreases j,
    {
        j -= 1;
    }
    (i, j)
}

/// `str::trim`, on characters.
pub fn trim_chars(v: &[char]) -> (r: Vec<char>)
    ensures
        r@ == trim(v@),
{
    let (a, b) = trim_range(v);
    copy_range(v, a, b)
}


// ------------------------------------------------------------------ lines

/// Position of the first `c` at or after `i`, or the length when none.
pub open spec fn next_of(s: Seq<char>, i: int, c: char) -> int
    decreases s.len() - i,
{
    if 0 <= i < s.len() && s[i] != c {
        next_of(s, i + 1, c)
    } else {
        i
    }
}

pub proof fn lemma_next_of_bounds(s: Seq<char>, i: int, c: char)
    requires
        0 <= i <= s.len(),
    ensures
        i <= next_of(s, i, c) <= s.len(),
        forall|k: int| i <= k < next_of(s, i, c) ==> #[trigger] s[k] != c,
        next_of(s, i, c) < s.len() ==> s[next_of(s, i, c)] == c,
    decreases s.len() - i,
{
    if i < s.len() && s[i] != c {
        lemma_next_of_bounds(s, i + 1, c);
    }
}

/// A line without the carriage return of a `\r\n` ending.
pub open spec fn strip_cr(s: Seq<char>) -> Seq<char> {
    if s.len() > 0 && s.last() == '\r' {
        s.drop_last()
    } else {
        s
    }
}

/// One piece of `str::lines` that runs from `i` to `e`: a piece that a line
/// feed ends also loses the carriage return before it; the unterminated last
/// piece is kept as it is.
pub open spec fn line_piece(s: Seq<char>, i: int, e: int) -> Seq<char> {
    if e < s.len() {
        strip_cr(s.subrange(i, e))
    } else {
        s.subrange(i, e)
    }
}

/// `str::lines` from position `i`: pieces between line feeds, with a final
/// line feed ending the last line rather than opening an empty one.
pub open spec fn lines_from(s: Seq<char>, i: int) -> Seq<Seq<char>>
    decreases s.len() + 1 - i,
{
    if 0 <= i < s.len() {
        let e = next_of(s, i, '\n');
        proof {
            lemma_next_of_bounds(s, i, '\n');
        }
        seq![line_piece(s, i, e)] + lines_from(s, e + 1)
    } else {
        Seq::empty()
    }
}

pub open spec fn lines(s: Seq<char>) -> Seq<Seq<char>> {
    lines_from(s, 0)
}

/// Lines after a prefix are the lines of the rest.
proof fn lemma_lines_shift(p: Seq<char>, b: Seq<char>, j: int)
    requires
        0 <= j <= b.len(),
    ensures
        lines_from(p + b, p.len() + j) == lines_from(b, j),
    decreases b.len() - j,
{
    let s = p + b;
    if j < b.len() {
        lemma_next_of_shift(p, b, j, '\n');
        lemma_next_of_bounds(b, j, '\n');
        let e = next_of(b, j, '\n');
        assert(s.subrange(p.len() + j, p.len() + e) =~= b.subrange(j, e));
        if e < b.len() {
            lemma_lines_shift(p, b, e + 1);
        } else {
            assert(lines_from(s, p.len() + e + 1) == Seq::<Seq<char>>::empty());
            assert(lines_from(b, e + 1) == Seq::<Seq<char>>::empty());
        }
        assert(p.len() + e + 1 == p.len() + (e + 1));
        assert(line_piece(s, p.len() + j, p.len() + e) == line_piece(b, j, e));
        assert(lines_from(s, p.len() + j) == seq![line_piece(s, p.len() + j, p.len() + e)] + lines_from(s, p.len() + e + 1));
    }
}

/// Lines each followed by a line feed.
pub open spec fn join_lines(ls: Seq<Seq<char>>) -> Seq<char>
    decreases ls.len(),
{
    if ls.len() == 0 {
        Seq::empty()
    } else {
        ls[0] + seq!['\n'] + join_lines(ls.drop_first())
    }
}

/// A line the text form can hold: no line feed, no carriage return.
pub open spec fn one_line(l: Seq<char>) -> bool {
    forall|i: int| 0 <= i < l.len() ==> #[trigger] l[i] != '\n' && l[i] != '\r'
}

pub proof fn lemma_join_lines_push(ls: Seq<Seq<char>>, l: Seq<char>)
    ensures
        join_lines(ls.push(l)) == join_lines(ls) + l + seq!['\n'],
    decreases ls.len(),
{
    if ls.len() == 0 {
        assert(ls.push(l).drop_first() =~= Seq::<Seq<char>>::empty());
        assert(join_lines(Seq::<Seq<char>>::empty()) == Seq::<char>::empty());
        assert(ls.push(l)[0] == l);
        assert(join_lines(ls) == Seq::<char>::empty());
        assert(join_lines(ls.push(l)) =~= join_lines(ls) + l + seq!['\n']);
    } else {
        lemma_join_lines_push(ls.drop_first(), l);
        assert(ls.push(l).drop_first() =~= ls.drop_first().push(l));
        assert(join_lines(ls.push(l)) =~= join_lines(ls) + l + seq!['\n']);
    }
}

pub proof fn lemma_join_lines_concat(a: Seq<Seq<char>>, b: Seq<Seq<char>>)
    ensures
        join_lines(a + b) == join_lines(a) + join_lines(b),
    decreases b.len(),
{
    if b.len() == 0 {
        assert(a + b =~= a);
        assert(join_lines(a) + join_lines(b) =~= join_lines(a));
    } else {
        lemma_join_lines_concat(a, b.drop_last());
        assert(a + b =~= (a + b.drop_last()).push(b.last()));
        assert(b =~= b.drop_last().push(b.last()));
        lemma_join_lines_push(a + b.drop_last(), b.last());
        lemma_join_lines_push(b.drop_last(), b.last());
        assert(join_lines(a + b) =~= join_lines(a) + join_lines(b));
    }
}

/// Reading the lines of joined lines gives them back.
pub proof fn lemma_lines_of_join(ls: Seq<Seq<char>>)
    requires
        forall|i: int| 0 <= i < ls.len() ==> one_line(#[trigger] ls[i]),
    ensures
        lines(join_lines(ls)) == ls,
    decreases ls.len(),
{
    if ls.len() > 0 {
        let l = ls[0];
        let rest = ls.drop_first();
        assert(one_line(l));
        assert forall|i: int| 0 <= i < rest.len() implies one_line(#[trigger] rest[i]) by {
            assert(rest[i] == ls[i + 1]);
        }
        lemma_lines_of_join(rest);
        let p = l + seq!['\n'];
        let s = join_lines(ls);
        assert(s =~= p + join_lines(rest));
        assert(s[l.len() as int] == '\n');
        assert forall|k: int| 0 <= k < l.len() implies #[trigger] s[k] != '\n' by {
            assert(s[k] == l[k]);
        }
        lemma_next_of_at(s, 0, l.len() as int, '\n');
        assert(s.subrange(0, l.len() as int) =~= l);
        if l.len() > 0 {
            assert(l.last() != '\r');
        }
        assert(strip_cr(l) == l);
        lemma_lines_shift(p, join_lines(rest), 0);
        assert(p.len() + 0 == l.len() + 1);
        assert(lines(s) =~= seq![l] + rest);
        assert(seq![l] + rest =~= ls);
    }
}

/// Position of the first `c` at or after `from`, or the length.
pub fn find_from(v: &[char], from: usize, c: char) -> (r: usize)
    requires
        from <= v@.len(),
    ensures
        r == next_of(v@, from as int, c),
        from <= r <= v@.len(),
{
    let mut i = from;
    while i < v.len() && v[i] != c
        invariant
            from <= i <= v@.len(),
            next_of(v@, i as int, c) == next_of(v@, from as int, c),
        decreases v@.len() - i,
    {
        i += 1;
    }
    i
}

/// `str::lines`, on characters.
pub fn lines_of(v: &[char]) -> (r: Vec<Vec<char>>)
    ensures
        r@.len() == lines(v@).len(),
        forall|k: int| 0 <= k < r@.len() ==> #[trigger] r@[k]@ == lines(v@)[k],
{
    let mut out: Vec<Vec<char>> = Vec::new();
    let mut i: usize = 0;
    let ghost mut done: Seq<Seq<char>> = Seq::empty();
    while i < v.len()
        invariant
            i <= v@.len(),
            out@.len() == done.len(),
            forall|k: int| 0 <= k < out@.len() ==> #[trigger] out@[k]@ == done[k],
            done + lines_from(v@, i as int) == lines(v@),
        decreases v@.len() - i,
    {
        let e = find_from(v, i, '\n');
        proof {
            lemma_next_of_bounds(v@, i as int, '\n');
        }
        let mut line = copy_range(v, i, e);
        if e < v.len() && line.len() > 0 && line[line.len() - 1] == '\r' {
            line.pop();
        }
        assert(line@ == line_piece(v@, i as int, e as int));
        proof {
            let piece = line_piece(v@, i as int, e as int);
            assert(lines_from(v@, i as int) == seq![piece] + lines_from(v@, e + 1));
            assert(done + lines_from(v@, i as int) =~= done.push(piece) + lines_from(v@, e + 1));
            done = done.push(piece);
        }
        out.push(line);
        if e == v.len() {
            assert(lines_from(v@, e + 1) =~= Seq::<Seq<char>>::empty());
            assert(done + lines_from(v@, e + 1) =~= done);
            return out;
        }
        i = e + 1;
    }
    assert(done + lines_from(v@, i as int) =~= done);
    out
}

// ------------------------------------------------------------------ split

/// `str::split` on one character: every piece, empty ones included.
pub open spec fn split_from(s: Seq<char>, i: int, c: char) -> Seq<Seq<char>>
    decreases s.len() - i,
{
    let e = next_of(s, i, c);
    if 0 <= i <= s.len() && e < s.len() {
        proof {
            lemma_next_of_bounds(s, i, c);
        }
        seq![s.subrange(i, e)] + split_from(s, e + 1, c)
    } else if 0 <= i <= s.len() {
        seq![s.subrange(i, s.len() as int)]
    } else {
        Seq::empty()
    }
}

pub open spec fn split(s: Seq<char>, c: char) -> Seq<Seq<char>> {
    split_from(s, 0, c)
}

/// The first `c` at or after `i` is at `k` when none comes between.
pub proof fn lemma_next_of_at(s: Seq<char>, i: int, k: int, c: char)
    requires
        0 <= i <= k <= s.len(),
        forall|j: int| i <= j < k ==> #[trigger] s[j] != c,
        k < s.len() ==> s[k] == c,
    ensures
        next_of(s, i, c) == k,
    decreases k - i,
{
    if i < k {
        lemma_next_of_at(s, i + 1, k, c);
    }
}

/// Searching after a prefix is searching the rest.
proof fn lemma_next_of_shift(p: Seq<char>, b: Seq<char>, j: int, c: char)
    requires
        0 <= j <= b.len(),
    ensures
        next_of(p + b, p.len() + j, c) == p.len() + next_of(b, j, c),
    decreases b.len() - j,
{
    let s = p + b;
    if j < b.len() {
        assert(s[p.len() + j] == b[j]);
        if b[j] != c {
            lemma_next_of_shift(p, b, j + 1, c);
        }
    }
}

/// Splitting after a prefix is splitting the rest.
proof fn lemma_split_shift(p: Seq<char>, b: Seq<char>, j: int, c: char)
    requires
        0 <= j <= b.len(),
    ensures
        split_from(p + b, p.len() + j, c) == split_from(b, j, c),
    decreases b.len() - j,
{
    let s = p + b;
    lemma_next_of_shift(p, b, j, c);
    lemma_next_of_bounds(b, j, c);
    let e = next_of(b, j, c);
    if e < b.len() {
        assert(s.subrange(p.len() + j, p.len() + e) =~= b.subrange(j, e));
        lemma_split_shift(p, b, e + 1, c);
        assert(p.len() + e + 1 == p.len() + (e + 1));
    } else {
        assert(s.subrange(p.len() + j, s.len() as int) =~= b.subrange(j, b.len() as int));
    }
}

/// A text without the separator is one piece.
pub proof fn lemma_split_none(a: Seq<char>, c: char)
    requires
        forall|i: int| 0 <= i < a.len() ==> #[trigger] a[i] != c,
    ensures
        split(a, c) == seq![a],
{
    lemma_next_of_at(a, 0, a.len() as int, c);
    assert(a.subrange(0, a.len() as int) =~= a);
}

/// Splitting at the first separator: the text before it is the first piece.
pub proof fn lemma_split_concat(a: Seq<char>, b: Seq<char>, c: char)
    requires
        forall|i: int| 0 <= i < a.len() ==> #[trigger] a[i] != c,
    ensures
        split(a + seq![c] + b, c) == seq![a] + split(b, c),
{
    let p = a + seq![c];
    let s = p + b;
    assert(s[a.len() as int] == c);
    assert forall|j: int| 0 <= j < a.len() implies #[trigger] s[j] != c by {
        assert(s[j] == a[j]);
    }
    lemma_next_of_at(s, 0, a.len() as int, c);
    assert(s.subrange(0, a.len() as int) =~= a);
    lemma_split_shift(p, b, 0, c);
    assert(p.len() + 0 == a.len() + 1);
    assert(a + seq![c] + b =~= s);
}

/// Trimmed text that is not empty has no whitespace at either end.
pub proof fn lemma_trimmed_ends(x: Seq<char>)
    requires
        x.len() > 0,
        trim(x) == x,
    ensures
        !is_ws(x[0]),
        !is_ws(x.last()),
{
    lemma_trim_bounds(x);
    lemma_skip_ws_bounds(x, 0);
    lemma_back_ws_bounds(x, skip_ws(x, 0), x.len() as int);
    if is_ws(x[0]) {
        lemma_skip_ws_bounds(x, 1);
        assert(skip_ws(x, 0) == skip_ws(x, 1));
    }
    if is_ws(x.last()) {
        let lo = skip_ws(x, 0);
        if lo < x.len() {
            lemma_back_ws_bounds(x, lo, x.len() - 1);
            assert(back_ws(x, lo, x.len() as int) == back_ws(x, lo, x.len() - 1));
        }
    }
}

/// A text with no whitespace at either end is its own trimmed form.
pub proof fn lemma_clean_ends(x: Seq<char>)
    requires
        x.len() > 0,
        !is_ws(x[0]),
        !is_ws(x.last()),
    ensures
        trim(x) == x,
{
    assert(skip_ws(x, 0) == 0);
    assert(back_ws(x, 0, x.len() as int) == x.len());
    assert(x.subrange(0, x.len() as int) =~= x);
}

/// A space after trimmed text is trimmed away again.
pub proof fn lemma_trim_before_space(x: Seq<char>)
    requires
        x.len() > 0,
        trim(x) == x,
    ensures
        trim(x + seq![' ']) == x,
{
    lemma_trimmed_ends(x);
    let s = x + seq![' '];
    assert(s[0] == x[0]);
    assert(skip_ws(s, 0) == 0);
    assert(s[s.len() - 1] == ' ');
    assert(is_ws(' '));
    assert(s[s.len() - 2] == x.last());
    assert(back_ws(s, 0, s.len() - 1) == s.len() - 1);
    assert(back_ws(s, 0, s.len() as int) == s.len() - 1);
    assert(s.subrange(0, s.len() - 1) =~= x);
}

/// A space in front of trimmed text is trimmed away again.
pub proof fn lemma_trim_after_space(x: Seq<char>)
    requires
        x.len() > 0,
        trim(x) == x,
    ensures
        trim(seq![' '] + x) == x,
{
    lemma_trimmed_ends(x);
    let s = seq![' '] + x;
    assert(s[0] == ' ');
    assert(s[1] == x[0]);
    assert(is_ws(' '));
    assert(skip_ws(s, 1) == 1);
    assert(skip_ws(s, 0) == 1);
    assert(s[s.len() - 1] == x.last());
    assert(back_ws(s, 1, s.len() as int) == s.len());
    assert(s.subrange(1, s.len() as int) =~= x);
}

/// `str::split` on one character.
pub fn split_chars(v: &[char], c: char) -> (r: Vec<Vec<char>>)
    ensures
        r@.len() == split(v@, c).len(),
        forall|k: int| 0 <= k < r@.len() ==> #[trigger] r@[k]@ == split(v@, c)[k],
{
    let mut out: Vec<Vec<char>> = Vec::new();
    let mut i: usize = 0;
    let ghost mut done: Seq<Seq<char>> = Seq::empty();
    loop
        invariant
            i <= v@.len(),
            out@.len() == done.len(),
            forall|k: int| 0 <= k < out@.len() ==> #[trigger] out@[k]@ == done[k],
            done + split_from(v@, i as int, c) == split(v@, c),
        decreases v@.len() - i,
    {
        let e = find_from(v, i, c);
        proof {
            lemma_next_of_bounds(v@, i as int, c);
        }
        let piece = copy_range(v, i, e);
        if e < v.len() {
            proof {
                assert(done + split_from(v@, i as int, c) =~= done.push(piece@) + split_from(
                    v@,
                    e + 1,
                    c,
                ));
                done = done.push(piece@);
            }
            out.push(piece);
            i = e + 1;
        } else {
            proof {
                assert(done + split_from(v@, i as int, c) =~= done.push(piece@));
                done = done.push(piece@);
            }
            out.push(piece);
            return out;
        }
    }
}

} // verus!
