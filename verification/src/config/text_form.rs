//! The text form of a document read back: what `to_text` writes, `parse`
//! reads as the same keys and values.
//!
//! The written text differs from the model in two ways that lookups never
//! see. A blank line separates one section from the next, and it is read
//! back as a blank line of the section before. And when the first section
//! has a name, the reader's unnamed section stands in front of it, empty.

use vstd::prelude::*;
use crate::config::ini::{
    add_entry, entries_text, find, header_text, initial_doc, is_key, lemma_annotation_leaves_values,
    lemma_pair_index, lemma_pair_index_ic, lemma_read_after_write, lemma_section_index,
    lemma_section_index_ic, lemma_with_section, lemma_write_leaves_others, line_pair, pair_index,
    pair_value, parse_line, parse_lines, parse_text, doc_text, quote_if_needed, section_index,
    sections_text, set_value, unquote, with_section, EntryView, SectionView,
};
use crate::text::{
    eq_ic, is_ws, join_lines, lemma_clean_ends, lemma_eq_ic_refl, lemma_eq_ic_sym,
    lemma_eq_ic_trans, lemma_join_lines_concat, lemma_join_lines_push, lemma_lines_of_join,
    lemma_trim_after_space, lemma_trim_before_space, lemma_trimmed_ends, lines, next_of, one_line,
    trim,
};

verus! {

// ---------------------------------------------------------------- lines

/// The line an entry is written as, without its line feed.
pub open spec fn entry_line(e: EntryView) -> Seq<char> {
    match e {
        EntryView::Pair(k, v) => k + seq![' ', '=', ' '] + quote_if_needed(v),
        EntryView::Comment(c) => seq![';', ' '] + c,
        EntryView::Blank => Seq::empty(),
    }
}

pub open spec fn entries_lines(es: Seq<EntryView>) -> Seq<Seq<char>> {
    es.map_values(|e: EntryView| entry_line(e))
}

/// The lines in front of the section at position `i`: none for the unnamed
/// section, else its header, after a blank line unless it comes first.
pub open spec fn header_lines(name: Seq<char>, i: int) -> Seq<Seq<char>> {
    if name.len() == 0 {
        Seq::empty()
    } else if i > 0 {
        seq![Seq::empty(), seq!['['] + name + seq![']']]
    } else {
        seq![seq!['['] + name + seq![']']]
    }
}

pub open spec fn sections_lines(secs: Seq<SectionView>, n: int) -> Seq<Seq<char>>
    decreases n,
{
    if n <= 0 {
        Seq::empty()
    } else {
        sections_lines(secs, n - 1) + header_lines(secs[n - 1].name, n - 1) + entries_lines(
            secs[n - 1].entries,
        )
    }
}

proof fn lemma_entries_text(es: Seq<EntryView>)
    ensures
        entries_text(es) == join_lines(entries_lines(es)),
    decreases es.len(),
{
    if es.len() > 0 {
        lemma_entries_text(es.drop_last());
        assert(entries_lines(es) =~= entries_lines(es.drop_last()).push(entry_line(es.last())));
        lemma_join_lines_push(entries_lines(es.drop_last()), entry_line(es.last()));
        assert(entries_text(es) =~= join_lines(entries_lines(es)));
    } else {
        assert(entries_lines(es) =~= Seq::<Seq<char>>::empty());
    }
}

proof fn lemma_header_text(name: Seq<char>, i: int)
    ensures
        header_text(name, i) == join_lines(header_lines(name, i)),
{
    let e = Seq::<Seq<char>>::empty();
    let h = seq!['['] + name + seq![']'];
    if name.len() > 0 {
        if i > 0 {
            lemma_join_lines_push(e.push(Seq::<char>::empty()), h);
            lemma_join_lines_push(e, Seq::<char>::empty());
            assert(seq![Seq::<char>::empty(), h] =~= e.push(Seq::<char>::empty()).push(h));
        } else {
            lemma_join_lines_push(e, h);
            assert(seq![h] =~= e.push(h));
        }
        assert(header_text(name, i) =~= join_lines(header_lines(name, i)));
    }
}

/// The text of a document is its lines, each followed by a line feed.
pub proof fn lemma_doc_text_lines(secs: Seq<SectionView>, n: int)
    requires
        0 <= n <= secs.len(),
    ensures
        sections_text(secs, n) == join_lines(sections_lines(secs, n)),
    decreases n,
{
    if n > 0 {
        lemma_doc_text_lines(secs, n - 1);
        let a = sections_lines(secs, n - 1);
        let h = header_lines(secs[n - 1].name, n - 1);
        let b = entries_lines(secs[n - 1].entries);
        lemma_header_text(secs[n - 1].name, n - 1);
        lemma_entries_text(secs[n - 1].entries);
        lemma_join_lines_concat(a, h);
        lemma_join_lines_concat(a + h, b);
        assert(sections_text(secs, n) =~= join_lines(sections_lines(secs, n)));
    }
}


// ------------------------------------------------------------ writable

/// A value written in quotes, which reading strips.
pub open spec fn quoted_form(v: Seq<char>) -> bool {
    v.len() >= 2 && ((v[0] == '"' && v.last() == '"') || (v[0] == '\'' && v.last() == '\''))
}

/// A key the text form carries: not empty, no whitespace at either end, no
/// line break, no `=`, and not starting like a comment or a header.
pub open spec fn writable_key(k: Seq<char>) -> bool {
    &&& k.len() > 0
    &&& trim(k) == k
    &&& one_line(k)
    &&& forall|i: int| 0 <= i < k.len() ==> #[trigger] k[i] != '='
    &&& k[0] != ';' && k[0] != '#' && k[0] != '['
}

/// A value the text form carries: no line break, and, unless it has
/// whitespace at an end and so is written in quotes, not itself in quotes.
pub open spec fn writable_value(v: Seq<char>) -> bool {
    &&& one_line(v)
    &&& trim(v) == v ==> !quoted_form(v)
}

pub open spec fn writable_entry(e: EntryView) -> bool {
    match e {
        EntryView::Pair(k, v) => writable_key(k) && writable_value(v),
        EntryView::Comment(c) => one_line(c) && trim(c) == c,
        EntryView::Blank => true,
    }
}

/// A section name the text form carries.
pub open spec fn writable_name(n: Seq<char>) -> bool {
    &&& trim(n) == n
    &&& one_line(n)
    &&& forall|i: int| 0 <= i < n.len() ==> #[trigger] n[i] != ']'
}

/// No two pairs of a section have the same key, ignoring ASCII case.
pub open spec fn keys_apart(es: Seq<EntryView>) -> bool {
    forall|a: int, b: int|
        #![trigger es[a], es[b]]
        0 <= a < b < es.len() ==> match es[b] {
            EntryView::Pair(kb, _) => !is_key(es[a], kb),
            _ => true,
        }
}

/// A document whose text form reads back as itself: every name, key, value
/// and comment writable, only the first section unnamed, no two sections of
/// the same name and no two keys of a section the same, ignoring ASCII case.
pub open spec fn writable(d: Seq<SectionView>) -> bool {
    &&& forall|i: int| 0 <= i < d.len() ==> writable_name(#[trigger] d[i].name)
    &&& forall|i: int| 0 < i < d.len() ==> (#[trigger] d[i].name).len() > 0
    &&& forall|i: int, j: int| 0 <= i < j < d.len() ==> !eq_ic(#[trigger] d[i].name, #[trigger] d[j].name)
    &&& forall|i: int| 0 <= i < d.len() ==> keys_apart(#[trigger] d[i].entries)
    &&& forall|i: int, a: int|
        0 <= i < d.len() && 0 <= a < d[i].entries.len() ==> writable_entry(#[trigger] d[i].entries[a])
}

// ------------------------------------------------------- reading a line

proof fn lemma_read_blank(p: Seq<SectionView>, cur: Seq<char>)
    ensures
        parse_line(p, cur, Seq::empty()) == (add_entry(p, cur, EntryView::Blank), cur),
{
    crate::text::lemma_trim_bounds(Seq::<char>::empty());
}

proof fn lemma_read_comment(p: Seq<SectionView>, cur: Seq<char>, c: Seq<char>)
    requires
        one_line(c),
        trim(c) == c,
    ensures
        parse_line(p, cur, seq![';', ' '] + c) == (add_entry(p, cur, EntryView::Comment(c)), cur),
{
    let raw = seq![';', ' '] + c;
    if c.len() == 0 {
        assert(raw =~= seq![';'] + seq![' ']);
        lemma_clean_ends(seq![';']);
        lemma_trim_before_space(seq![';']);
        assert(trim(raw) == seq![';']);
        assert(seq![';'].drop_first() =~= Seq::<char>::empty());
        crate::text::lemma_trim_bounds(Seq::<char>::empty());
        assert(trim(Seq::<char>::empty()) =~= c);
    } else {
        lemma_trimmed_ends(c);
        assert(raw[0] == ';');
        assert(raw.last() == c.last());
        lemma_clean_ends(raw);
        assert(raw.drop_first() =~= seq![' '] + c);
        lemma_trim_after_space(c);
    }
}

proof fn lemma_read_header(p: Seq<SectionView>, cur: Seq<char>, name: Seq<char>)
    requires
        writable_name(name),
        name.len() > 0,
    ensures
        parse_line(p, cur, seq!['['] + name + seq![']']) == (with_section(p, name), name),
{
    let raw = seq!['['] + name + seq![']'];
    assert(raw[0] == '[');
    assert(raw.last() == ']');
    lemma_clean_ends(raw);
    assert forall|j: int| 0 <= j < name.len() + 1 implies #[trigger] raw[j] != ']' by {
        if j > 0 {
            assert(raw[j] == name[j - 1]);
        }
    }
    let e = (name.len() + 1) as int;
    crate::text::lemma_next_of_at(raw, 0, e, ']');
    assert(raw.subrange(1, e) =~= name);
}

proof fn lemma_read_pair(p: Seq<SectionView>, cur: Seq<char>, k: Seq<char>, v: Seq<char>)
    requires
        writable_key(k),
        writable_value(v),
    ensures
        parse_line(p, cur, k + seq![' ', '=', ' '] + quote_if_needed(v)) == (set_value(p, cur, k, v), cur),
{
    let q = quote_if_needed(v);
    let raw = k + seq![' ', '=', ' '] + q;
    lemma_trimmed_ends(k);
    let kl = k.len() as int;
    // The trimmed line.
    let tl = if q.len() == 0 { k + seq![' ', '='] } else { raw };
    if q.len() == 0 {
        assert(raw =~= (k + seq![' ', '=']) + seq![' ']);
        let h = k + seq![' ', '='];
        assert(h[0] == k[0]);
        assert(h.last() == '=');
        lemma_clean_ends(h);
        lemma_trim_before_space(h);
    } else {
        if trim(v) == v {
            lemma_trimmed_ends(v);
            assert(q == v);
        } else {
            assert(q == seq!['"'] + v + seq!['"']);
        }
        assert(raw[0] == k[0]);
        assert(raw.last() == q.last());
        lemma_clean_ends(raw);
    }
    assert(trim(raw) == tl);
    assert(tl[0] == k[0]);
    assert(tl.len() > 0);
    // The first `=` follows the key and a space.
    assert(tl[kl] == ' ');
    assert(tl[kl + 1] == '=');
    assert forall|j: int| 0 <= j < kl + 1 implies #[trigger] tl[j] != '=' by {
        if j < kl {
            assert(tl[j] == k[j]);
        }
    }
    crate::text::lemma_next_of_at(tl, 0, kl + 1, '=');
    assert(tl.subrange(0, kl + 1) =~= k + seq![' ']);
    lemma_trim_before_space(k);
    // The value.
    if q.len() == 0 {
        assert(tl.subrange(kl + 2, tl.len() as int) =~= Seq::<char>::empty());
        crate::text::lemma_trim_bounds(Seq::<char>::empty());
        assert(trim(Seq::<char>::empty()) =~= Seq::<char>::empty());
        if v.len() > 0 {
            assert(trim(v) == v);
        }
        assert(v =~= Seq::<char>::empty());
    } else {
        assert(tl.subrange(kl + 2, tl.len() as int) =~= seq![' '] + q);
        if trim(v) == v {
            lemma_trim_after_space(v);
        } else {
            assert(q[0] == '"');
            assert(q.last() == '"');
            lemma_clean_ends(q);
            lemma_trim_after_space(q);
            assert(q.subrange(1, q.len() - 1) =~= v);
        }
    }
    assert(line_pair(tl) == Some((k, v)));
}


/// A value written between a matching pair of double or single quotes reads
/// as what lies between them, spaces kept: the line `k = qvq` sets `k` to `v`
/// in the current section, and the key then reads `v` there.
pub proof fn lemma_quoted_value_read(p: Seq<SectionView>, cur: Seq<char>, k: Seq<char>, q: char, v: Seq<char>)
    requires
        writable_key(k),
        q == '"' || q == '\'',
    ensures
        parse_line(p, cur, k + seq![' ', '=', ' '] + (seq![q] + v + seq![q])) == (set_value(p, cur, k, v), cur),
        find(parse_line(p, cur, k + seq![' ', '=', ' '] + (seq![q] + v + seq![q])).0, cur, k) == Some(v),
{
    let qv = seq![q] + v + seq![q];
    let raw = k + seq![' ', '=', ' '] + qv;
    let kl = k.len() as int;
    lemma_trimmed_ends(k);
    assert(!is_ws(q));
    assert(qv[0] == q);
    assert(qv.last() == q);
    lemma_clean_ends(qv);
    assert(raw[0] == k[0]);
    assert(raw.last() == q);
    lemma_clean_ends(raw);
    assert(raw[kl] == ' ');
    assert(raw[kl + 1] == '=');
    assert forall|j: int| 0 <= j < kl + 1 implies #[trigger] raw[j] != '=' by {
        if j < kl {
            assert(raw[j] == k[j]);
        }
    }
    crate::text::lemma_next_of_at(raw, 0, kl + 1, '=');
    assert(raw.subrange(0, kl + 1) =~= k + seq![' ']);
    lemma_trim_before_space(k);
    assert(raw.subrange(kl + 2, raw.len() as int) =~= seq![' '] + qv);
    lemma_trim_after_space(qv);
    assert(qv.subrange(1, qv.len() - 1) =~= v);
    assert(unquote(qv) == v);
    assert(line_pair(raw) == Some((k, v)));
    lemma_read_after_write(p, cur, k, v);
}

// ------------------------------------------------------ reading lines

/// The document and current section after reading lines from a state.
pub open spec fn parse_from(p: Seq<SectionView>, cur: Seq<char>, ls: Seq<Seq<char>>) -> (
    Seq<SectionView>,
    Seq<char>,
)
    decreases ls.len(),
{
    if ls.len() == 0 {
        (p, cur)
    } else {
        let st = parse_from(p, cur, ls.drop_last());
        parse_line(st.0, st.1, ls.last())
    }
}

proof fn lemma_parse_lines_from(ls: Seq<Seq<char>>)
    ensures
        parse_lines(ls) == parse_from(initial_doc(), Seq::empty(), ls),
    decreases ls.len(),
{
    if ls.len() > 0 {
        lemma_parse_lines_from(ls.drop_last());
    }
}

proof fn lemma_parse_from_concat(p: Seq<SectionView>, cur: Seq<char>, a: Seq<Seq<char>>, b: Seq<Seq<char>>)
    ensures
        parse_from(p, cur, a + b) == parse_from(parse_from(p, cur, a).0, parse_from(p, cur, a).1, b),
    decreases b.len(),
{
    if b.len() == 0 {
        assert(a + b =~= a);
    } else {
        lemma_parse_from_concat(p, cur, a, b.drop_last());
        assert((a + b).drop_last() =~= a + b.drop_last());
        assert((a + b).last() == b.last());
    }
}

// ------------------------------------------------------------- lookups

/// What a key reads in the lines of one section.
pub open spec fn entry_lookup(es: Seq<EntryView>, k: Seq<char>) -> Option<Seq<char>> {
    let j = pair_index(es, k);
    if j < 0 {
        None
    } else {
        Some(pair_value(es[j]))
    }
}

/// A lookup does not see ASCII case.
proof fn lemma_find_ic(d: Seq<SectionView>, s: Seq<char>, s2: Seq<char>, k: Seq<char>, k2: Seq<char>)
    requires
        eq_ic(s, s2),
        eq_ic(k, k2),
    ensures
        find(d, s, k) == find(d, s2, k2),
{
    lemma_section_index_ic(d, s, s2);
    let i = section_index(d, s);
    if i >= 0 {
        lemma_pair_index_ic(d[i].entries, k, k2);
    }
}

/// One more line in a section: a pair that is the first of its key answers
/// for it, anything else changes no answer.
proof fn lemma_lookup_push(es: Seq<EntryView>, e: EntryView, k: Seq<char>)
    ensures
        entry_lookup(es.push(e), k) == if pair_index(es, k) >= 0 {
            entry_lookup(es, k)
        } else if is_key(e, k) {
            Some(pair_value(e))
        } else {
            None::<Seq<char>>
        },
{
    let es2 = es.push(e);
    lemma_pair_index(es, k);
    lemma_pair_index(es2, k);
    let a = pair_index(es, k);
    let b = pair_index(es2, k);
    if a >= 0 {
        assert(es2[a] == es[a]);
        if b >= 0 && b < a {
            assert(es2[b] == es[b]);
        }
    } else {
        if b >= 0 && b < es.len() {
            assert(es2[b] == es[b]);
        }
        if is_key(e, k) {
            assert(es2[es.len() as int] == e);
        }
    }
}

/// A document with one more section, named unlike every other.
proof fn lemma_find_push(d: Seq<SectionView>, sec: SectionView, s: Seq<char>, k: Seq<char>)
    requires
        forall|i: int| 0 <= i < d.len() ==> !eq_ic(#[trigger] d[i].name, sec.name),
    ensures
        find(d.push(sec), s, k) == if eq_ic(s, sec.name) {
            entry_lookup(sec.entries, k)
        } else {
            find(d, s, k)
        },
{
    let d2 = d.push(sec);
    lemma_section_index(d, s);
    lemma_section_index(d2, s);
    let a = section_index(d, s);
    let b = section_index(d2, s);
    if eq_ic(s, sec.name) {
        lemma_eq_ic_sym(s, sec.name);
        assert(eq_ic(d2[d.len() as int].name, s));
        if b >= 0 && b < d.len() {
            assert(d2[b] == d[b]);
            lemma_eq_ic_trans(d[b].name, s, sec.name);
        }
    } else {
        if a >= 0 {
            assert(d2[a] == d[a]);
            if b >= 0 && b < a {
                assert(d2[b] == d[b]);
            }
        } else {
            if b >= 0 && b < d.len() {
                assert(d2[b] == d[b]);
            }
            if b == d.len() {
                assert(d2[b] == sec);
                lemma_eq_ic_sym(sec.name, s);
            }
        }
    }
}

/// Making sure a section exists changes no answer.
proof fn lemma_with_section_find(d: Seq<SectionView>, name: Seq<char>, s: Seq<char>, k: Seq<char>)
    ensures
        find(with_section(d, name), s, k) == find(d, s, k),
{
    lemma_section_index(d, name);
    if section_index(d, name) < 0 {
        let sec = SectionView { name, entries: Seq::empty() };
        assert forall|i: int| 0 <= i < d.len() implies !eq_ic(#[trigger] d[i].name, sec.name) by {}
        lemma_find_push(d, sec, s, k);
        lemma_pair_index(sec.entries, k);
        if eq_ic(s, name) {
            lemma_section_index(d, s);
            let a = section_index(d, s);
            if a >= 0 {
                lemma_eq_ic_trans(d[a].name, s, name);
            }
        }
    }
}


// ------------------------------------------------------------- sections

/// Reading the lines of a section's entries into a section that held no
/// pair: that section answers as the entries do, every other as before.
proof fn lemma_read_entries(p: Seq<SectionView>, name: Seq<char>, es: Seq<EntryView>, j: int)
    requires
        0 <= j <= es.len(),
        forall|a: int| 0 <= a < es.len() ==> writable_entry(#[trigger] es[a]),
        keys_apart(es),
        forall|k: Seq<char>| #[trigger] find(p, name, k) is None,
    ensures
        parse_from(p, name, entries_lines(es.take(j))).1 == name,
        forall|s: Seq<char>, k: Seq<char>|
            #[trigger] find(parse_from(p, name, entries_lines(es.take(j))).0, s, k) == if eq_ic(s, name) {
                entry_lookup(es.take(j), k)
            } else {
                find(p, s, k)
            },
    decreases j,
{
    let ls = entries_lines(es.take(j));
    if j == 0 {
        assert(ls =~= Seq::<Seq<char>>::empty());
        assert forall|s: Seq<char>, k: Seq<char>|
            #[trigger] find(parse_from(p, name, ls).0, s, k) == if eq_ic(s, name) {
                entry_lookup(es.take(j), k)
            } else {
                find(p, s, k)
            } by {
            if eq_ic(s, name) {
                lemma_eq_ic_sym(s, name);
                lemma_find_ic(p, s, name, k, k);
                lemma_eq_ic_refl(k);
                lemma_pair_index(es.take(j), k);
            }
        }
    } else {
        lemma_read_entries(p, name, es, j - 1);
        let prev = entries_lines(es.take(j - 1));
        assert(ls.drop_last() =~= prev);
        let e = es[j - 1];
        assert(ls.last() == entry_line(e));
        assert(es.take(j) =~= es.take(j - 1).push(e));
        let q = parse_from(p, name, prev).0;
        assert(writable_entry(e));
        match e {
            EntryView::Pair(k0, v0) => {
                lemma_read_pair(q, name, k0, v0);
                assert forall|s: Seq<char>, k: Seq<char>|
                    #[trigger] find(parse_from(p, name, ls).0, s, k) == if eq_ic(s, name) {
                        entry_lookup(es.take(j), k)
                    } else {
                        find(p, s, k)
                    } by {
                    lemma_lookup_push(es.take(j - 1), e, k);
                    if eq_ic(s, name) && eq_ic(k, k0) {
                        lemma_eq_ic_sym(s, name);
                        lemma_eq_ic_sym(k, k0);
                        lemma_find_ic(set_value(q, name, k0, v0), s, name, k, k0);
                        lemma_read_after_write(q, name, k0, v0);
                        // No earlier pair has this key.
                        lemma_pair_index(es.take(j - 1), k);
                        let a = pair_index(es.take(j - 1), k);
                        if a >= 0 {
                            assert(es.take(j - 1)[a] == es[a]);
                            match es[a] {
                                EntryView::Pair(ka, _) => {
                                    lemma_eq_ic_trans(ka, k, k0);
                                },
                                _ => {},
                            }
                        }
                    } else {
                        if eq_ic(name, s) {
                            lemma_eq_ic_sym(name, s);
                        }
                        if eq_ic(s, name) {
                            lemma_eq_ic_sym(s, name);
                            if eq_ic(k0, k) {
                                lemma_eq_ic_sym(k0, k);
                            }
                        }
                        lemma_write_leaves_others(q, name, k0, v0, s, k);
                        if eq_ic(s, name) {
                            assert(!is_key(e, k)) by {
                                if eq_ic(k0, k) {
                                    lemma_eq_ic_sym(k0, k);
                                }
                            }
                        }
                    }
                }
            },
            EntryView::Comment(c) => {
                lemma_read_comment(q, name, c);
                assert forall|s: Seq<char>, k: Seq<char>|
                    #[trigger] find(parse_from(p, name, ls).0, s, k) == if eq_ic(s, name) {
                        entry_lookup(es.take(j), k)
                    } else {
                        find(p, s, k)
                    } by {
                    lemma_lookup_push(es.take(j - 1), e, k);
                    lemma_annotation_leaves_values(q, name, e, s, k);
                }
            },
            EntryView::Blank => {
                lemma_read_blank(q, name);
                assert forall|s: Seq<char>, k: Seq<char>|
                    #[trigger] find(parse_from(p, name, ls).0, s, k) == if eq_ic(s, name) {
                        entry_lookup(es.take(j), k)
                    } else {
                        find(p, s, k)
                    } by {
                    lemma_lookup_push(es.take(j - 1), e, k);
                    lemma_annotation_leaves_values(q, name, e, s, k);
                }
            },
        }
    }
}


/// Reading the lines of the first `n` sections answers every lookup as those
/// sections do, and leaves the last of them current.
proof fn lemma_read_sections(d: Seq<SectionView>, n: int)
    requires
        writable(d),
        0 <= n <= d.len(),
    ensures
        n > 0 ==> parse_from(initial_doc(), Seq::empty(), sections_lines(d, n)).1 == d[n - 1].name,
        n == 0 ==> parse_from(initial_doc(), Seq::empty(), sections_lines(d, n)).1 == Seq::<char>::empty(),
        forall|s: Seq<char>, k: Seq<char>|
            #[trigger] find(parse_from(initial_doc(), Seq::empty(), sections_lines(d, n)).0, s, k) == find(
                d.take(n),
                s,
                k,
            ),
    decreases n,
{
    let e = Seq::<char>::empty();
    if n == 0 {
        assert(sections_lines(d, 0) =~= Seq::<Seq<char>>::empty());
        assert forall|s: Seq<char>, k: Seq<char>|
            #[trigger] find(parse_from(initial_doc(), e, sections_lines(d, n)).0, s, k) == find(d.take(n), s, k) by {
            let i0 = initial_doc();
            lemma_section_index(i0, s);
            if section_index(i0, s) >= 0 {
                lemma_pair_index(i0[0].entries, k);
            }
            lemma_section_index(d.take(0), s);
        }
    } else {
        lemma_read_sections(d, n - 1);
        let prev = sections_lines(d, n - 1);
        let sec = d[n - 1];
        let name = sec.name;
        let h = header_lines(name, n - 1);
        let b = entries_lines(sec.entries);
        let st0 = parse_from(initial_doc(), e, prev);
        lemma_parse_from_concat(initial_doc(), e, prev, h);
        lemma_parse_from_concat(initial_doc(), e, prev + h, b);
        let st1 = parse_from(st0.0, st0.1, h);
        assert(writable_name(name));
        // After the header: the section is current, and nothing reads differently.
        assert(st1.1 == name && forall|s: Seq<char>, k: Seq<char>|
            #[trigger] find(st1.0, s, k) == find(d.take(n - 1), s, k)) by {
            if name.len() == 0 {
                assert(n - 1 == 0);
                assert(h =~= Seq::<Seq<char>>::empty());
            } else {
                let hl = seq!['['] + name + seq![']'];
                lemma_read_header(st0.0, st0.1, name);
                if n - 1 > 0 {
                    lemma_read_blank(st0.0, st0.1);
                    let p1 = add_entry(st0.0, st0.1, EntryView::Blank);
                    lemma_read_header(p1, st0.1, name);
                    assert(h.drop_last() =~= seq![e]);
                    assert(h.drop_last().drop_last() =~= Seq::<Seq<char>>::empty());
                    assert(parse_from(st0.0, st0.1, h.drop_last().drop_last()) == st0);
                    assert(h.drop_last().last() == e);
                    assert(parse_from(st0.0, st0.1, h.drop_last()) == (p1, st0.1));
                    assert(h.last() == hl);
                    assert(st1 == (with_section(p1, name), name));
                    assert forall|s: Seq<char>, k: Seq<char>|
                        #[trigger] find(st1.0, s, k) == find(d.take(n - 1), s, k) by {
                        lemma_annotation_leaves_values(st0.0, st0.1, EntryView::Blank, s, k);
                        lemma_with_section_find(p1, name, s, k);
                    }
                } else {
                    assert(h.drop_last() =~= Seq::<Seq<char>>::empty());
                    assert forall|s: Seq<char>, k: Seq<char>|
                        #[trigger] find(st1.0, s, k) == find(d.take(n - 1), s, k) by {
                        lemma_with_section_find(st0.0, name, s, k);
                    }
                }
            }
        }
        // The new section held no pair before its entries.
        let dp = d.take(n - 1);
        assert forall|i: int| 0 <= i < dp.len() implies !eq_ic(#[trigger] dp[i].name, name) by {
            assert(dp[i] == d[i]);
        }
        assert forall|k: Seq<char>| #[trigger] find(st1.0, name, k) is None by {
            lemma_section_index(dp, name);
        }
        assert forall|a: int| 0 <= a < sec.entries.len() implies writable_entry(#[trigger] sec.entries[a]) by {}
        assert(keys_apart(sec.entries));
        lemma_read_entries(st1.0, name, sec.entries, sec.entries.len() as int);
        assert(sec.entries.take(sec.entries.len() as int) =~= sec.entries);
        assert(sections_lines(d, n) == prev + h + b);
        assert(d.take(n) =~= dp.push(sec));
        assert forall|s: Seq<char>, k: Seq<char>|
            #[trigger] find(parse_from(initial_doc(), e, sections_lines(d, n)).0, s, k) == find(d.take(n), s, k) by {
            lemma_find_push(dp, sec, s, k);
        }
    }
}

/// Every line of the text form is one line.
proof fn lemma_lines_single(d: Seq<SectionView>, n: int)
    requires
        writable(d),
        0 <= n <= d.len(),
    ensures
        forall|i: int| 0 <= i < sections_lines(d, n).len() ==> one_line(#[trigger] sections_lines(d, n)[i]),
    decreases n,
{
    if n > 0 {
        lemma_read_sections_lines_step(d, n);
        lemma_lines_single(d, n - 1);
        let prev = sections_lines(d, n - 1);
        let h = header_lines(d[n - 1].name, n - 1);
        let b = entries_lines(d[n - 1].entries);
        let all = sections_lines(d, n);
        assert(all == prev + h + b);
        assert forall|i: int| 0 <= i < all.len() implies one_line(#[trigger] all[i]) by {
            if i < prev.len() {
                assert(all[i] == prev[i]);
            } else if i < prev.len() + h.len() {
                assert(all[i] == h[i - prev.len()]);
            } else {
                assert(all[i] == b[i - prev.len() - h.len()]);
            }
        }
    }
}

proof fn lemma_read_sections_lines_step(d: Seq<SectionView>, n: int)
    requires
        writable(d),
        0 < n <= d.len(),
    ensures
        forall|i: int| 0 <= i < header_lines(d[n - 1].name, n - 1).len() ==> one_line(
            #[trigger] header_lines(d[n - 1].name, n - 1)[i],
        ),
        forall|i: int| 0 <= i < entries_lines(d[n - 1].entries).len() ==> one_line(
            #[trigger] entries_lines(d[n - 1].entries)[i],
        ),
{
    let sec = d[n - 1];
    assert(writable_name(sec.name));
    let hl = seq!['['] + sec.name + seq![']'];
    assert forall|j: int| 0 <= j < hl.len() implies #[trigger] hl[j] != '\n' && hl[j] != '\r' by {
        if 0 < j < hl.len() - 1 {
            assert(hl[j] == sec.name[j - 1]);
        }
    }
    assert(one_line(Seq::<char>::empty()));
    let es = sec.entries;
    assert forall|i: int| 0 <= i < entries_lines(es).len() implies one_line(#[trigger] entries_lines(es)[i]) by {
        let e = es[i];
        assert(writable_entry(e));
        let l = entry_line(e);
        match e {
            EntryView::Pair(k, v) => {
                let q = quote_if_needed(v);
                assert forall|j: int| 0 <= j < q.len() implies #[trigger] q[j] != '\n' && q[j] != '\r' by {
                    if trim(v) != v && 0 < j < q.len() - 1 {
                        assert(q[j] == v[j - 1]);
                    }
                }
                assert forall|j: int| 0 <= j < l.len() implies #[trigger] l[j] != '\n' && l[j] != '\r' by {
                    if j < k.len() {
                        assert(l[j] == k[j]);
                    } else if j >= k.len() + 3 {
                        assert(l[j] == q[j - k.len() - 3]);
                    }
                }
            },
            EntryView::Comment(c) => {
                assert forall|j: int| 0 <= j < l.len() implies #[trigger] l[j] != '\n' && l[j] != '\r' by {
                    if j >= 2 {
                        assert(l[j] == c[j - 2]);
                    }
                }
            },
            EntryView::Blank => {},
        }
    }
}

/// A document written out and read back answers every lookup as it did:
/// the same sections, keys and values, whatever the case of the name asked
/// for.
pub proof fn lemma_text_round_trip(d: Seq<SectionView>, s: Seq<char>, k: Seq<char>)
    requires
        writable(d),
    ensures
        find(parse_text(doc_text(d)), s, k) == find(d, s, k),
{
    let n = d.len() as int;
    lemma_doc_text_lines(d, n);
    lemma_lines_single(d, n);
    lemma_lines_of_join(sections_lines(d, n));
    lemma_parse_lines_from(sections_lines(d, n));
    lemma_read_sections(d, n);
    assert(d.take(n) =~= d);
}

} // verus!
