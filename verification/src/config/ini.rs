//! INI document model.
//!
//! Format rules:
//!   - section headers in square brackets;
//!   - key = value, value is trimmed and unquoted if wrapped in quotes;
//!   - comments start with ; or #, kept in the model so a rewrite preserves
//!     the documentation lines that ship with the default file;
//!   - unknown sections and keys are preserved on save.
//!
//! Parsing never fails: malformed lines are skipped, because a broken config
//! must not prevent the receiver from starting.

use vstd::prelude::*;
use crate::text::{lemma_split_concat, lemma_split_none, lemma_trim_after_space, lemma_trim_bounds, append_chars, is_ws, lemma_trim_no_ws, chars_eq, chars_of, copy_range, eq_ic, eq_ignore_case, find_from, lemma_eq_ic_refl, lemma_eq_ic_sym, lemma_eq_ic_trans, lines, lines_of, lower_seq, lowercase, next_of, push_char, push_str, split, split_chars, string_of, trim, trim_chars};
use crate::number::{decimal, lemma_decimal, lemma_parse_signed_decimal, lemma_parse_unsigned_decimal, format_signed, format_unsigned, parse_signed, parse_signed_chars, parse_unsigned, parse_unsigned_chars, signed_decimal};

verus! {

// ------------------------------------------------------------------- model

/// One line of a section, as the model sees it.
pub enum EntryView {
    Pair(Seq<char>, Seq<char>),
    Comment(Seq<char>),
    Blank,
}

/// A section: its name as written and its lines in file order.
pub struct SectionView {
    pub name: Seq<char>,
    pub entries: Seq<EntryView>,
}

pub open spec fn is_key(e: EntryView, key: Seq<char>) -> bool {
    match e {
        EntryView::Pair(k, _) => eq_ic(k, key),
        _ => false,
    }
}

/// Position of the first pair whose key matches, ignoring ASCII case, or -1.
pub open spec fn pair_index(entries: Seq<EntryView>, key: Seq<char>) -> int
    decreases entries.len(),
{
    if entries.len() == 0 {
        -1
    } else if is_key(entries[0], key) {
        0
    } else {
        let r = pair_index(entries.drop_first(), key);
        if r < 0 {
            -1
        } else {
            r + 1
        }
    }
}

/// Position of the first section whose name matches, ignoring ASCII case, or -1.
pub open spec fn section_index(secs: Seq<SectionView>, name: Seq<char>) -> int
    decreases secs.len(),
{
    if secs.len() == 0 {
        -1
    } else if eq_ic(secs[0].name, name) {
        0
    } else {
        let r = section_index(secs.drop_first(), name);
        if r < 0 {
            -1
        } else {
            r + 1
        }
    }
}

pub proof fn lemma_pair_index(entries: Seq<EntryView>, key: Seq<char>)
    ensures
        -1 <= pair_index(entries, key) < entries.len(),
        pair_index(entries, key) >= 0 ==> is_key(entries[pair_index(entries, key)], key),
        forall|j: int|
            0 <= j < entries.len() && (pair_index(entries, key) < 0 || j < pair_index(
                entries,
                key,
            )) ==> !is_key(#[trigger] entries[j], key),
    decreases entries.len(),
{
    if entries.len() > 0 && !is_key(entries[0], key) {
        let rest = entries.drop_first();
        lemma_pair_index(rest, key);
        assert forall|j: int|
            0 <= j < entries.len() && (pair_index(entries, key) < 0 || j < pair_index(
                entries,
                key,
            )) implies !is_key(#[trigger] entries[j], key) by {
            if j > 0 {
                assert(entries[j] == rest[j - 1]);
            }
        }
    }
}

pub proof fn lemma_section_index(secs: Seq<SectionView>, name: Seq<char>)
    ensures
        -1 <= section_index(secs, name) < secs.len(),
        section_index(secs, name) >= 0 ==> eq_ic(secs[section_index(secs, name)].name, name),
        forall|j: int|
            0 <= j < secs.len() && (section_index(secs, name) < 0 || j < section_index(
                secs,
                name,
            )) ==> !eq_ic(#[trigger] secs[j].name, name),
    decreases secs.len(),
{
    if secs.len() > 0 && !eq_ic(secs[0].name, name) {
        let rest = secs.drop_first();
        lemma_section_index(rest, name);
        assert forall|j: int|
            0 <= j < secs.len() && (section_index(secs, name) < 0 || j < section_index(
                secs,
                name,
            )) implies !eq_ic(#[trigger] secs[j].name, name) by {
            if j > 0 {
                assert(secs[j] == rest[j - 1]);
            }
        }
    }
}

/// The document with a section of that name present, added at the end when
/// no section matches.
pub open spec fn with_section(secs: Seq<SectionView>, name: Seq<char>) -> Seq<SectionView> {
    if section_index(secs, name) >= 0 {
        secs
    } else {
        secs.push(SectionView { name, entries: Seq::empty() })
    }
}

/// Entries after a write: the first matching pair takes the value and keeps
/// its spelling of the key, otherwise a new pair is appended.
pub open spec fn set_in(entries: Seq<EntryView>, key: Seq<char>, value: Seq<char>) -> Seq<
    EntryView,
> {
    let i = pair_index(entries, key);
    if i >= 0 {
        match entries[i] {
            EntryView::Pair(k, _) => entries.update(i, EntryView::Pair(k, value)),
            _ => entries,
        }
    } else {
        entries.push(EntryView::Pair(key, value))
    }
}

/// `set_string` on the model.
pub open spec fn set_value(
    secs: Seq<SectionView>,
    name: Seq<char>,
    key: Seq<char>,
    value: Seq<char>,
) -> Seq<SectionView> {
    let d = with_section(secs, name);
    let i = section_index(d, name);
    d.update(i, SectionView { name: d[i].name, entries: set_in(d[i].entries, key, value) })
}

/// Appends a line to a section, creating the section when needed.
pub open spec fn add_entry(secs: Seq<SectionView>, name: Seq<char>, e: EntryView) -> Seq<
    SectionView,
> {
    let d = with_section(secs, name);
    let i = section_index(d, name);
    d.update(i, SectionView { name: d[i].name, entries: d[i].entries.push(e) })
}

pub open spec fn pair_value(e: EntryView) -> Seq<char> {
    match e {
        EntryView::Pair(_, v) => v,
        _ => Seq::empty(),
    }
}

/// Value stored under a key, section and key compared ignoring ASCII case.
pub open spec fn find(secs: Seq<SectionView>, name: Seq<char>, key: Seq<char>) -> Option<
    Seq<char>,
> {
    let i = section_index(secs, name);
    if i < 0 {
        None
    } else {
        let j = pair_index(secs[i].entries, key);
        if j < 0 {
            None
        } else {
            Some(pair_value(secs[i].entries[j]))
        }
    }
}

pub proof fn lemma_with_section(secs: Seq<SectionView>, name: Seq<char>)
    ensures
        section_index(with_section(secs, name), name) >= 0,
        section_index(secs, name) >= 0 ==> section_index(with_section(secs, name), name)
            == section_index(secs, name),
        section_index(secs, name) < 0 ==> section_index(with_section(secs, name), name)
            == secs.len(),
        with_section(secs, name).len() >= secs.len(),
        forall|j: int| 0 <= j < secs.len() ==> #[trigger] with_section(secs, name)[j] == secs[j],
{
    lemma_section_index(secs, name);
    if section_index(secs, name) < 0 {
        let d = with_section(secs, name);
        lemma_section_index(d, name);
        lemma_eq_ic_refl(name);
        let r = section_index(d, name);
        assert(d[secs.len() as int].name == name);
        assert(eq_ic(d[secs.len() as int].name, name));
        if r >= 0 && r < secs.len() {
            assert(d[r] == secs[r]);
            assert(!eq_ic(secs[r].name, name));
        }
    }
}


// ------------------------------------------------------------ typed values

/// Enum stored as text in the config file.
pub trait ConfigEnum: Sized + Copy {
    /// Variant a lower case text names, if any.
    spec fn spec_from_config(text: Seq<char>) -> Option<Self>;

    /// Text a variant is written as.
    spec fn spec_to_config(&self) -> Seq<char>;

    /// Every text, in declaration order.
    spec fn spec_variants() -> Seq<Seq<char>>;

    fn from_config(text: &str) -> (r: Option<Self>)
        ensures
            r == Self::spec_from_config(text@),
    ;

    fn to_config(&self) -> (r: &'static str)
        ensures
            r@ == self.spec_to_config(),
    ;

    fn variants() -> (r: Vec<&'static str>)
        ensures
            r@.len() == Self::spec_variants().len(),
            forall|i: int| 0 <= i < r@.len() ==> #[trigger] r@[i]@ == Self::spec_variants()[i],
    ;
}

/// Text a boolean setting may be written as, and what it means.
pub open spec fn bool_text(s: Seq<char>) -> Option<bool> {
    let t = lower_seq(trim(s));
    if t == "1"@ || t == "true"@ || t == "yes"@ || t == "on"@ {
        Some(true)
    } else if t == "0"@ || t == "false"@ || t == "no"@ || t == "off"@ {
        Some(false)
    } else {
        None
    }
}

pub open spec fn read_string(d: Seq<SectionView>, s: Seq<char>, k: Seq<char>, default: Seq<char>) -> Seq<char> {
    match find(d, s, k) {
        Some(v) => v,
        None => default,
    }
}

pub open spec fn read_bool(d: Seq<SectionView>, s: Seq<char>, k: Seq<char>, default: bool) -> bool {
    match find(d, s, k) {
        Some(v) => match bool_text(v) {
            Some(b) => b,
            None => default,
        },
        None => default,
    }
}

/// A value read with a range: itself when inside the range, otherwise the
/// default brought into the range.
pub open spec fn clamp_or_default(v: nat, default: nat, lo: nat, hi: nat) -> nat {
    if v < lo || v > hi {
        if default < lo {
            lo
        } else if default > hi {
            hi
        } else {
            default
        }
    } else {
        v
    }
}

/// Unsigned reader for a type whose largest value is `max`.
pub open spec fn read_unsigned(d: Seq<SectionView>, s: Seq<char>, k: Seq<char>, default: nat, max: nat) -> nat {
    match find(d, s, k) {
        Some(v) => match parse_unsigned(trim(v), max) {
            Some(x) => x,
            None => default,
        },
        None => default,
    }
}

/// Signed reader for a type with the range `min..=max`.
pub open spec fn read_signed(d: Seq<SectionView>, s: Seq<char>, k: Seq<char>, default: int, min: int, max: int) -> int {
    match find(d, s, k) {
        Some(v) => match parse_signed(trim(v), min, max) {
            Some(x) => x,
            None => default,
        },
        None => default,
    }
}

pub open spec fn read_enum<T: ConfigEnum>(d: Seq<SectionView>, s: Seq<char>, k: Seq<char>, default: T) -> T {
    match find(d, s, k) {
        Some(v) => match T::spec_from_config(lower_seq(trim(v))) {
            Some(x) => x,
            None => default,
        },
        None => default,
    }
}

/// Items of a comma separated list: each piece trimmed, empty pieces dropped.
pub open spec fn keep_items(pieces: Seq<Seq<char>>) -> Seq<Seq<char>>
    decreases pieces.len(),
{
    if pieces.len() == 0 {
        Seq::empty()
    } else {
        let rest = keep_items(pieces.drop_last());
        let t = trim(pieces.last());
        if t.len() > 0 {
            rest.push(t)
        } else {
            rest
        }
    }
}

pub open spec fn list_items(v: Seq<char>) -> Seq<Seq<char>> {
    keep_items(split(v, ','))
}

pub open spec fn read_list(d: Seq<SectionView>, s: Seq<char>, k: Seq<char>) -> Seq<Seq<char>> {
    match find(d, s, k) {
        Some(v) => list_items(v),
        None => Seq::empty(),
    }
}

/// Items joined by a comma and a space.
pub open spec fn join(items: Seq<Seq<char>>) -> Seq<char>
    decreases items.len(),
{
    if items.len() == 0 {
        Seq::empty()
    } else if items.len() == 1 {
        items[0]
    } else {
        join(items.drop_last()) + seq![',', ' '] + items.last()
    }
}

/// An item a list can carry and read back unchanged: not empty, no comma, no
/// whitespace at either end.
pub open spec fn list_item(x: Seq<char>) -> bool {
    &&& x.len() > 0
    &&& trim(x) == x
    &&& forall|j: int| 0 <= j < x.len() ==> #[trigger] x[j] != ','
}

/// Each item with the space the separator leaves in front of it.
pub open spec fn spaced(items: Seq<Seq<char>>) -> Seq<Seq<char>> {
    items.map_values(|x: Seq<char>| seq![' '] + x)
}

proof fn lemma_join_front(items: Seq<Seq<char>>)
    requires
        items.len() >= 2,
    ensures
        join(items) == items[0] + seq![',', ' '] + join(items.drop_first()),
    decreases items.len(),
{
    let d = items.drop_last();
    let r = items.drop_first();
    if items.len() == 2 {
        assert(join(d) == d[0]);
        assert(join(r) == r[0]);
    } else {
        lemma_join_front(d);
        assert(r.drop_last() =~= d.drop_first());
        assert(r.last() == items.last());
        assert(join(items) =~= items[0] + seq![',', ' '] + join(r));
    }
}

proof fn lemma_split_join(pre: Seq<char>, items: Seq<Seq<char>>)
    requires
        items.len() >= 1,
        forall|j: int| 0 <= j < pre.len() ==> #[trigger] pre[j] != ',',
        forall|i: int| 0 <= i < items.len() ==> list_item(#[trigger] items[i]),
    ensures
        split(pre + join(items), ',') == seq![pre + items[0]] + spaced(items.drop_first()),
    decreases items.len(),
{
    let x0 = items[0];
    assert(list_item(x0));
    let a = pre + x0;
    assert forall|j: int| 0 <= j < a.len() implies #[trigger] a[j] != ',' by {
        if j >= pre.len() {
            assert(a[j] == x0[j - pre.len()]);
        }
    }
    if items.len() == 1 {
        assert(join(items) == x0);
        lemma_split_none(a, ',');
        assert(spaced(items.drop_first()) =~= Seq::<Seq<char>>::empty());
        assert(seq![a] + spaced(items.drop_first()) =~= seq![a]);
    } else {
        let rest = items.drop_first();
        lemma_join_front(items);
        let b = seq![' '] + join(rest);
        assert(pre + join(items) =~= a + seq![','] + b);
        lemma_split_concat(a, b, ',');
        assert forall|i: int| 0 <= i < rest.len() implies list_item(#[trigger] rest[i]) by {
            assert(rest[i] == items[i + 1]);
        }
        lemma_split_join(seq![' '], rest);
        assert(spaced(rest) =~= seq![seq![' '] + rest[0]] + spaced(rest.drop_first()));
        assert(seq![a] + split(b, ',') =~= seq![a] + spaced(rest));
    }
}

proof fn lemma_keep_spaced(x0: Seq<char>, r: Seq<Seq<char>>)
    requires
        list_item(x0),
        forall|i: int| 0 <= i < r.len() ==> list_item(#[trigger] r[i]),
    ensures
        keep_items(seq![x0] + spaced(r)) == seq![x0] + r,
    decreases r.len(),
{
    let p = seq![x0] + spaced(r);
    if r.len() == 0 {
        assert(p =~= seq![x0]);
        assert(p.drop_last() =~= Seq::<Seq<char>>::empty());
        assert(p.last() == x0);
        assert(keep_items(p) == keep_items(p.drop_last()).push(trim(p.last())));
        assert(keep_items(p) =~= seq![x0]);
        assert(seq![x0] + r =~= seq![x0]);
    } else {
        let rd = r.drop_last();
        assert forall|i: int| 0 <= i < rd.len() implies list_item(#[trigger] rd[i]) by {
            assert(rd[i] == r[i]);
        }
        lemma_keep_spaced(x0, rd);
        assert(p.drop_last() =~= seq![x0] + spaced(rd));
        assert(p.last() == seq![' '] + r.last());
        assert(list_item(r.last()));
        lemma_trim_after_space(r.last());
        assert(trim(p.last()) == r.last());
        assert(keep_items(p) == keep_items(p.drop_last()).push(trim(p.last())));
        assert(seq![x0] + r =~= (seq![x0] + rd).push(r.last()));
    }
}

/// The items of a joined list are the items joined, when every item is not
/// empty and carries no comma and no whitespace at either end.
pub proof fn lemma_list_items_join(items: Seq<Seq<char>>)
    requires
        forall|i: int| 0 <= i < items.len() ==> list_item(#[trigger] items[i]),
    ensures
        list_items(join(items)) == items,
{
    if items.len() == 0 {
        let e = Seq::<char>::empty();
        lemma_split_none(e, ',');
        assert(split(e, ',') == seq![e]);
        assert(seq![e].drop_last() =~= Seq::<Seq<char>>::empty());
        assert(trim(e).len() == 0) by {
            lemma_trim_bounds(e);
        }
        assert(keep_items(seq![e]) == keep_items(seq![e].drop_last()));
        assert(list_items(join(items)) =~= items);
    } else {
        let e = Seq::<char>::empty();
        lemma_split_join(e, items);
        assert(e + join(items) =~= join(items));
        assert(e + items[0] =~= items[0]);
        assert(list_item(items[0]));
        assert forall|i: int| 0 <= i < items.drop_first().len() implies list_item(
            #[trigger] items.drop_first()[i],
        ) by {
            assert(items.drop_first()[i] == items[i + 1]);
        }
        lemma_keep_spaced(items[0], items.drop_first());
        assert(seq![items[0]] + items.drop_first() =~= items);
        assert(split(join(items), ',') == seq![items[0]] + spaced(items.drop_first()));
    }
}

/// A list written is the list read back, when every item is not empty and
/// carries no comma and no whitespace at either end.
pub proof fn lemma_list_round_trip(d: Seq<SectionView>, s: Seq<char>, k: Seq<char>, items: Seq<Seq<char>>)
    requires
        forall|i: int| 0 <= i < items.len() ==> list_item(#[trigger] items[i]),
    ensures
        read_list(set_value(d, s, k, join(items)), s, k) == items,
{
    lemma_read_after_write(d, s, k, join(items));
    lemma_list_items_join(items);
}

/// Every stated pair as (section, key, value), in file order.
pub open spec fn section_pairs(name: Seq<char>, es: Seq<EntryView>) -> Seq<(Seq<char>, Seq<char>, Seq<char>)>
    decreases es.len(),
{
    if es.len() == 0 {
        Seq::empty()
    } else {
        let rest = section_pairs(name, es.drop_last());
        match es.last() {
            EntryView::Pair(k, v) => rest.push((name, k, v)),
            _ => rest,
        }
    }
}

pub open spec fn pairs_upto(secs: Seq<SectionView>, n: int) -> Seq<(Seq<char>, Seq<char>, Seq<char>)>
    decreases n,
{
    if n <= 0 {
        Seq::empty()
    } else {
        pairs_upto(secs, n - 1) + section_pairs(secs[n - 1].name, secs[n - 1].entries)
    }
}

pub open spec fn all_pairs(secs: Seq<SectionView>) -> Seq<(Seq<char>, Seq<char>, Seq<char>)> {
    pairs_upto(secs, secs.len() as int)
}

/// Names of the named sections, in file order.
pub open spec fn names_upto(secs: Seq<SectionView>, n: int) -> Seq<Seq<char>>
    decreases n,
{
    if n <= 0 {
        Seq::empty()
    } else if secs[n - 1].name.len() > 0 {
        names_upto(secs, n - 1).push(secs[n - 1].name)
    } else {
        names_upto(secs, n - 1)
    }
}

pub open spec fn section_names(secs: Seq<SectionView>) -> Seq<Seq<char>> {
    names_upto(secs, secs.len() as int)
}

// ------------------------------------------------------------------- laws

pub proof fn lemma_section_index_same_names(a: Seq<SectionView>, b: Seq<SectionView>, name: Seq<char>)
    requires
        a.len() == b.len(),
        forall|j: int| 0 <= j < a.len() ==> eq_ic(#[trigger] a[j].name, name) == eq_ic(b[j].name, name),
    ensures
        section_index(a, name) == section_index(b, name),
{
    lemma_section_index(a, name);
    lemma_section_index(b, name);
    let r1 = section_index(a, name);
    let r2 = section_index(b, name);
    if r1 >= 0 {
        assert(eq_ic(b[r1].name, name));
        if r2 >= 0 {
            assert(eq_ic(a[r2].name, name));
        }
    } else if r2 >= 0 {
        assert(eq_ic(a[r2].name, name));
    }
}

pub proof fn lemma_pair_index_same_keys(a: Seq<EntryView>, b: Seq<EntryView>, key: Seq<char>)
    requires
        a.len() == b.len(),
        forall|j: int| 0 <= j < a.len() ==> is_key(#[trigger] a[j], key) == is_key(b[j], key),
    ensures
        pair_index(a, key) == pair_index(b, key),
{
    lemma_pair_index(a, key);
    lemma_pair_index(b, key);
    let r1 = pair_index(a, key);
    let r2 = pair_index(b, key);
    if r1 >= 0 {
        assert(is_key(b[r1], key));
        if r2 >= 0 {
            assert(is_key(a[r2], key));
        }
    } else if r2 >= 0 {
        assert(is_key(a[r2], key));
    }
}

/// Names that match each other ignoring case find the same section.
pub proof fn lemma_section_index_ic(secs: Seq<SectionView>, s: Seq<char>, s2: Seq<char>)
    requires
        eq_ic(s, s2),
    ensures
        section_index(secs, s) == section_index(secs, s2),
{
    lemma_section_index(secs, s);
    lemma_section_index(secs, s2);
    let r1 = section_index(secs, s);
    let r2 = section_index(secs, s2);
    lemma_eq_ic_sym(s, s2);
    if r1 >= 0 {
        lemma_eq_ic_trans(secs[r1].name, s, s2);
        if r2 >= 0 {
            lemma_eq_ic_trans(secs[r2].name, s2, s);
        }
    } else if r2 >= 0 {
        lemma_eq_ic_trans(secs[r2].name, s2, s);
    }
}

/// Keys that match each other ignoring case find the same pair.
pub proof fn lemma_pair_index_ic(es: Seq<EntryView>, k: Seq<char>, k2: Seq<char>)
    requires
        eq_ic(k, k2),
    ensures
        pair_index(es, k) == pair_index(es, k2),
{
    lemma_eq_ic_sym(k, k2);
    assert forall|j: int| 0 <= j < es.len() implies is_key(#[trigger] es[j], k) == is_key(es[j], k2) by {
        match es[j] {
            EntryView::Pair(kk, _) => {
                if eq_ic(kk, k) {
                    lemma_eq_ic_trans(kk, k, k2);
                }
                if eq_ic(kk, k2) {
                    lemma_eq_ic_trans(kk, k2, k);
                }
            },
            _ => {},
        }
    }
    lemma_pair_index_same_keys(es, es, k);
    lemma_pair_index(es, k);
    lemma_pair_index(es, k2);
    let r1 = pair_index(es, k);
    let r2 = pair_index(es, k2);
    if r1 >= 0 {
        assert(is_key(es[r1], k2));
        if r2 >= 0 {
            assert(is_key(es[r2], k));
        }
    } else if r2 >= 0 {
        assert(is_key(es[r2], k));
    }
}

/// A value written under a key is the value read back under that key.
pub proof fn lemma_read_after_write(d: Seq<SectionView>, s: Seq<char>, k: Seq<char>, v: Seq<char>)
    ensures
        find(set_value(d, s, k, v), s, k) == Some(v),
{
    let w = with_section(d, s);
    lemma_with_section(d, s);
    lemma_section_index(w, s);
    let i = section_index(w, s);
    let es = w[i].entries;
    let after = set_value(d, s, k, v);
    lemma_section_index_same_names(w, after, s);
    lemma_pair_index(es, k);
    lemma_eq_ic_refl(k);
    let j = pair_index(es, k);
    let es2 = set_in(es, k, v);
    if j >= 0 {
        match es[j] {
            EntryView::Pair(kk, _) => {
                lemma_pair_index_same_keys(es, es2, k);
            },
            _ => {},
        }
    } else {
        assert(es2 == es.push(EntryView::Pair(k, v)));
        lemma_pair_index(es2, k);
        assert(is_key(es2[es.len() as int], k));
        let r = pair_index(es2, k);
        if r >= 0 && r < es.len() {
            assert(es2[r] == es[r]);
        }
    }
}

/// Writing a key leaves every other key of every section as it was.
pub proof fn lemma_write_leaves_others(
    d: Seq<SectionView>,
    s: Seq<char>,
    k: Seq<char>,
    v: Seq<char>,
    s2: Seq<char>,
    k2: Seq<char>,
)
    requires
        !(eq_ic(s, s2) && eq_ic(k, k2)),
    ensures
        find(set_value(d, s, k, v), s2, k2) == find(d, s2, k2),
{
    let w = with_section(d, s);
    lemma_with_section(d, s);
    let i = section_index(w, s);
    let es = w[i].entries;
    let after = set_value(d, s, k, v);
    lemma_section_index(w, s);
    lemma_section_index(d, s2);
    lemma_section_index(w, s2);
    assert forall|j: int| 0 <= j < w.len() implies eq_ic(#[trigger] w[j].name, s2) == eq_ic(
        after[j].name,
        s2,
    ) by {}
    lemma_section_index_same_names(w, after, s2);
    // The section read for s2 in the widened document is the one in d.
    lemma_section_index_same_names(w.take(d.len() as int), d, s2);
    let m = section_index(d, s2);
    if eq_ic(s, s2) {
        lemma_section_index_ic(w, s, s2);
        lemma_section_index_ic(d, s, s2);
        // Same section, different key.
        lemma_eq_ic_sym(k, k2);
        let es2 = set_in(es, k, v);
        lemma_pair_index(es, k);
        lemma_pair_index(es, k2);
        let j = pair_index(es, k);
        assert forall|x: int| 0 <= x < es.len() implies is_key(#[trigger] es[x], k2) == is_key(
            es2[x],
            k2,
        ) by {
            if x == j {
                match es[j] {
                    EntryView::Pair(kk, _) => {},
                    _ => {},
                }
            }
        }
        if j >= 0 {
            match es[j] {
                EntryView::Pair(kk, _) => {
                    lemma_pair_index_same_keys(es, es2, k2);
                    let m2 = pair_index(es, k2);
                    if m2 == j {
                        lemma_eq_ic_sym(kk, k);
                        lemma_eq_ic_trans(k, kk, k2);
                    }
                },
                _ => {},
            }
        } else {
            lemma_pair_index(es2, k2);
            let r = pair_index(es2, k2);
            let m2 = pair_index(es, k2);
            if m2 >= 0 {
                assert(es2[m2] == es[m2]);
                assert(is_key(es2[m2], k2));
            }
            if r >= 0 && r < es.len() {
                assert(es2[r] == es[r]);
            }
            if r == es.len() {
                assert(es2[r] == EntryView::Pair(k, v));
            }
        }
    } else {
        // Different section: the written section is not the one s2 reads.
        if section_index(d, s) < 0 {
            assert(w[d.len() as int].name == s);
            assert(!eq_ic(w[d.len() as int].name, s2));
        }
        let r = section_index(w, s2);
        if r >= 0 && r < d.len() {
            assert(w[r] == d[r]);
        }
        if r == i && r >= 0 {
            lemma_eq_ic_sym(w[i].name, s);
            lemma_eq_ic_trans(s, w[i].name, s2);
        }
        if m >= 0 {
            assert(w[m] == d[m]);
            assert(eq_ic(w[m].name, s2));
        }
        if r >= 0 && r == d.len() {
            assert(!eq_ic(w[r].name, s2));
        }
    }
}

/// Comments and blank lines never change what a key reads.
pub proof fn lemma_annotation_leaves_values(
    d: Seq<SectionView>,
    s: Seq<char>,
    e: EntryView,
    s2: Seq<char>,
    k2: Seq<char>,
)
    requires
        !(e is Pair),
    ensures
        find(add_entry(d, s, e), s2, k2) == find(d, s2, k2),
{
    let w = with_section(d, s);
    lemma_with_section(d, s);
    let i = section_index(w, s);
    let after = add_entry(d, s, e);
    lemma_section_index(w, s);
    lemma_section_index(d, s2);
    lemma_section_index(w, s2);
    lemma_section_index_same_names(w, after, s2);
    let r = section_index(w, s2);
    let m = section_index(d, s2);
    if section_index(d, s) < 0 {
        assert(w[d.len() as int].name == s);
    }
    if r >= 0 && r < d.len() {
        assert(w[r] == d[r]);
    }
    if m >= 0 {
        assert(w[m] == d[m]);
        assert(eq_ic(w[m].name, s2));
    }
    if r >= 0 {
        let es = w[r].entries;
        if r == i {
            let es2 = es.push(e);
            lemma_pair_index(es, k2);
            lemma_pair_index(es2, k2);
            let p = pair_index(es, k2);
            let q = pair_index(es2, k2);
            if p >= 0 {
                assert(es2[p] == es[p]);
            }
            if q >= 0 && q < es.len() {
                assert(es2[q] == es[q]);
            }
        }
        if r == d.len() {
            let p = pair_index(w[r].entries, k2);
            lemma_pair_index(w[r].entries, k2);
        }
    }
}

/// Text a boolean is written as.
pub open spec fn bool_value_text(b: bool) -> Seq<char> {
    if b {
        "true"@
    } else {
        "false"@
    }
}

/// The text a boolean is written as reads as that boolean.
pub proof fn lemma_bool_text(b: bool)
    ensures
        bool_text(bool_value_text(b)) == Some(b),
{
    reveal_strlit("true");
    reveal_strlit("false");
    reveal_strlit("1");
    reveal_strlit("yes");
    reveal_strlit("on");
    reveal_strlit("0");
    reveal_strlit("no");
    reveal_strlit("off");
    let t = bool_value_text(b);
    lemma_trim_no_ws(t);
    assert(lower_seq(t) =~= t);
}

/// How a stored boolean reads, whatever the default: 1, true, yes and on,
/// trimmed and in any case, read as true; 0, false, no and off read as false;
/// any other text, and a missing key, read as the default.
pub proof fn lemma_bool_words(d: Seq<SectionView>, s: Seq<char>, k: Seq<char>, default: bool)
    ensures
        find(d, s, k) is None ==> read_bool(d, s, k, default) == default,
        find(d, s, k) matches Some(v) ==> {
            let t = lower_seq(trim(v));
            &&& (t == seq!['1'] || t == seq!['t', 'r', 'u', 'e'] || t == seq!['y', 'e', 's'] || t == seq![
                'o',
                'n',
            ]) ==> read_bool(d, s, k, default)
            &&& (t == seq!['0'] || t == seq!['f', 'a', 'l', 's', 'e'] || t == seq!['n', 'o'] || t == seq![
                'o',
                'f',
                'f',
            ]) ==> !read_bool(d, s, k, default)
            &&& !(t == seq!['1'] || t == seq!['t', 'r', 'u', 'e'] || t == seq!['y', 'e', 's'] || t
                == seq!['o', 'n'] || t == seq!['0'] || t == seq!['f', 'a', 'l', 's', 'e'] || t == seq![
                'n',
                'o',
            ] || t == seq!['o', 'f', 'f']) ==> read_bool(d, s, k, default) == default
        },
{
    reveal_strlit("true");
    reveal_strlit("false");
    reveal_strlit("1");
    reveal_strlit("yes");
    reveal_strlit("on");
    reveal_strlit("0");
    reveal_strlit("no");
    reveal_strlit("off");
    assert("1"@ =~= seq!['1']);
    assert("true"@ =~= seq!['t', 'r', 'u', 'e']);
    assert("yes"@ =~= seq!['y', 'e', 's']);
    assert("on"@ =~= seq!['o', 'n']);
    assert("0"@ =~= seq!['0']);
    assert("false"@ =~= seq!['f', 'a', 'l', 's', 'e']);
    assert("no"@ =~= seq!['n', 'o']);
    assert("off"@ =~= seq!['o', 'f', 'f']);
    if let Some(v) = find(d, s, k) {
        let t = lower_seq(trim(v));
        if t == seq!['1'] || t == seq!['t', 'r', 'u', 'e'] || t == seq!['y', 'e', 's'] || t == seq!['o', 'n'] {
            assert(bool_text(v) == Some(true));
        }
        if t == seq!['0'] || t == seq!['f', 'a', 'l', 's', 'e'] || t == seq!['n', 'o'] || t == seq!['o', 'f', 'f'] {
            assert(t.len() == 1 ==> t[0] == '0');
            assert(t.len() != 1 ==> t[0] != '1' && t[0] != 't' && t[0] != 'y');
            assert(t[0] == 'o' ==> t.len() == 3);
            assert(!(t == "1"@ || t == "true"@ || t == "yes"@ || t == "on"@));
            assert(bool_text(v) == Some(false));
        }
    }
}

/// The decimal text of a number reads as that number.
pub proof fn lemma_decimal_text(v: nat, max: nat)
    requires
        v <= max,
    ensures
        parse_unsigned(trim(decimal(v)), max) == Some(v),
{
    lemma_decimal(v);
    lemma_trim_no_ws(decimal(v));
    lemma_parse_unsigned_decimal(v, max);
}

/// The decimal text of a signed number reads as that number.
pub proof fn lemma_signed_text(v: int, min: int, max: int)
    requires
        min <= v <= max,
    ensures
        parse_signed(trim(signed_decimal(v)), min, max) == Some(v),
{
    if v < 0 {
        lemma_decimal((-v) as nat);
        assert forall|i: int| 0 <= i < signed_decimal(v).len() implies !is_ws(
            #[trigger] signed_decimal(v)[i],
        ) by {
            if i > 0 {
                assert(signed_decimal(v)[i] == decimal((-v) as nat)[i - 1]);
            }
        }
    } else {
        lemma_decimal(v as nat);
    }
    lemma_trim_no_ws(signed_decimal(v));
    lemma_parse_signed_decimal(v, min, max);
}

/// An unsigned number written is the number read back.
pub proof fn lemma_unsigned_round_trip(
    d: Seq<SectionView>,
    s: Seq<char>,
    k: Seq<char>,
    v: nat,
    default: nat,
    max: nat,
)
    requires
        v <= max,
    ensures
        read_unsigned(set_value(d, s, k, decimal(v)), s, k, default, max) == v,
{
    lemma_read_after_write(d, s, k, decimal(v));
    lemma_decimal(v);
    lemma_trim_no_ws(decimal(v));
    lemma_parse_unsigned_decimal(v, max);
}

/// A signed number written is the number read back.
pub proof fn lemma_signed_round_trip(
    d: Seq<SectionView>,
    s: Seq<char>,
    k: Seq<char>,
    v: int,
    default: int,
    min: int,
    max: int,
)
    requires
        min <= v <= max,
    ensures
        read_signed(set_value(d, s, k, signed_decimal(v)), s, k, default, min, max) == v,
{
    lemma_read_after_write(d, s, k, signed_decimal(v));
    if v < 0 {
        lemma_decimal((-v) as nat);
        assert forall|i: int| 0 <= i < signed_decimal(v).len() implies !is_ws(
            #[trigger] signed_decimal(v)[i],
        ) by {
            if i > 0 {
                assert(signed_decimal(v)[i] == decimal((-v) as nat)[i - 1]);
            }
        }
    } else {
        lemma_decimal(v as nat);
    }
    lemma_trim_no_ws(signed_decimal(v));
    lemma_parse_signed_decimal(v, min, max);
}

/// A boolean written is the boolean read back.
pub proof fn lemma_bool_round_trip(d: Seq<SectionView>, s: Seq<char>, k: Seq<char>, v: bool, default: bool)
    ensures
        read_bool(set_value(d, s, k, if v { "true"@ } else { "false"@ }), s, k, default) == v,
{
    reveal_strlit("true");
    reveal_strlit("false");
    reveal_strlit("1");
    reveal_strlit("yes");
    reveal_strlit("on");
    reveal_strlit("0");
    reveal_strlit("no");
    reveal_strlit("off");
    let t: Seq<char> = if v { "true"@ } else { "false"@ };
    lemma_read_after_write(d, s, k, t);
    lemma_trim_no_ws(t);
    assert(lower_seq(t) =~= t);
}

/// An enumerated value written is the value read back, for an enum whose
/// text reads back as itself.
pub proof fn lemma_enum_round_trip<T: ConfigEnum>(d: Seq<SectionView>, s: Seq<char>, k: Seq<char>, v: T, default: T)
    requires
        T::spec_from_config(lower_seq(trim(v.spec_to_config()))) == Some(v),
    ensures
        read_enum(set_value(d, s, k, v.spec_to_config()), s, k, default) == v,
{
    lemma_read_after_write(d, s, k, v.spec_to_config());
}

// ------------------------------------------------------------- the format

/// A value with one pair of matching quotes around it loses them.
pub open spec fn unquote(s: Seq<char>) -> Seq<char> {
    if s.len() >= 2 && ((s[0] == '"' && s.last() == '"') || (s[0] == '\'' && s.last() == '\'')) {
        s.subrange(1, s.len() - 1)
    } else {
        s
    }
}

/// A value whose leading or trailing spaces would be lost on reread is quoted.
pub open spec fn quote_if_needed(s: Seq<char>) -> Seq<char> {
    if s != trim(s) {
        seq!['"'] + s + seq!['"']
    } else {
        s
    }
}

/// One line read into the document; `current` is the section lines go to.
pub open spec fn parse_line(doc: Seq<SectionView>, current: Seq<char>, raw: Seq<char>) -> (
    Seq<SectionView>,
    Seq<char>,
) {
    let line = trim(raw);
    if line.len() == 0 {
        (add_entry(doc, current, EntryView::Blank), current)
    } else if line[0] == ';' || line[0] == '#' {
        (add_entry(doc, current, EntryView::Comment(trim(line.drop_first()))), current)
    } else if line[0] == '[' {
        let e = next_of(line, 0, ']');
        if e < line.len() {
            let name = trim(line.subrange(1, e));
            (with_section(doc, name), name)
        } else {
            (doc, current)
        }
    } else {
        match line_pair(line) {
            Some(kv) => (set_value(doc, current, kv.0, kv.1), current),
            None => (doc, current),
        }
    }
}

/// Key and value of a trimmed `key = value` line, if it is one.
pub open spec fn line_pair(line: Seq<char>) -> Option<(Seq<char>, Seq<char>)> {
    let eq = next_of(line, 0, '=');
    if eq < line.len() {
        let key = trim(line.subrange(0, eq));
        if key.len() == 0 {
            None
        } else {
            Some((key, unquote(trim(line.subrange(eq + 1, line.len() as int)))))
        }
    } else {
        None
    }
}

/// The document before any line: one unnamed section for what precedes the
/// first header.
pub open spec fn initial_doc() -> Seq<SectionView> {
    seq![SectionView { name: Seq::empty(), entries: Seq::empty() }]
}

pub open spec fn parse_lines(ls: Seq<Seq<char>>) -> (Seq<SectionView>, Seq<char>)
    decreases ls.len(),
{
    if ls.len() == 0 {
        (initial_doc(), Seq::empty())
    } else {
        let st = parse_lines(ls.drop_last());
        parse_line(st.0, st.1, ls.last())
    }
}

/// `Ini::parse` on the model.
pub open spec fn parse_text(t: Seq<char>) -> Seq<SectionView> {
    parse_lines(lines(t)).0
}

pub open spec fn entry_text(e: EntryView) -> Seq<char> {
    match e {
        EntryView::Pair(k, v) => k + seq![' ', '=', ' '] + quote_if_needed(v) + seq!['\n'],
        EntryView::Comment(c) => seq![';', ' '] + c + seq!['\n'],
        EntryView::Blank => seq!['\n'],
    }
}

pub open spec fn entries_text(es: Seq<EntryView>) -> Seq<char>
    decreases es.len(),
{
    if es.len() == 0 {
        Seq::empty()
    } else {
        entries_text(es.drop_last()) + entry_text(es.last())
    }
}

/// Header line of the section at position `i`; the unnamed section has none.
pub open spec fn header_text(name: Seq<char>, i: int) -> Seq<char> {
    if name.len() == 0 {
        Seq::empty()
    } else {
        (if i > 0 {
            seq!['\n']
        } else {
            Seq::<char>::empty()
        }) + seq!['['] + name + seq![']', '\n']
    }
}

pub open spec fn sections_text(secs: Seq<SectionView>, n: int) -> Seq<char>
    decreases n,
{
    if n <= 0 {
        Seq::empty()
    } else {
        sections_text(secs, n - 1) + header_text(secs[n - 1].name, n - 1) + entries_text(
            secs[n - 1].entries,
        )
    }
}

/// `Ini::to_text` on the model.
pub open spec fn doc_text(secs: Seq<SectionView>) -> Seq<char> {
    sections_text(secs, secs.len() as int)
}

/// Of several assignments of a key in one section, the last one read is the
/// value: a `key = value` line makes its value the one the key reads.
pub proof fn lemma_later_assignment_wins(ls: Seq<Seq<char>>, line: Seq<char>)
    requires
        trim(line).len() > 0,
        trim(line)[0] != ';' && trim(line)[0] != '#' && trim(line)[0] != '[',
        line_pair(trim(line)) is Some,
    ensures
        ({
            let before = parse_lines(ls);
            let after = parse_lines(ls.push(line));
            let kv = line_pair(trim(line)).unwrap();
            &&& after.1 == before.1
            &&& find(after.0, after.1, kv.0) == Some(kv.1)
        }),
{
    let before = parse_lines(ls);
    let kv = line_pair(trim(line)).unwrap();
    assert(ls.push(line).drop_last() =~= ls);
    lemma_read_after_write(before.0, before.1, kv.0, kv.1);
}

// ---------------------------------------------------------------- document

enum Entry {
    Pair { key: String, value: String },
    Comment(String),
    Blank,
}

impl View for Entry {
    type V = EntryView;

    closed spec fn view(&self) -> EntryView {
        match self {
            Entry::Pair { key, value } => EntryView::Pair(key@, value@),
            Entry::Comment(c) => EntryView::Comment(c@),
            Entry::Blank => EntryView::Blank,
        }
    }
}

struct Section {
    name: String,
    entries: Vec<Entry>,
}

impl View for Section {
    type V = SectionView;

    closed spec fn view(&self) -> SectionView {
        SectionView { name: self.name@, entries: self.entries@.map_values(|e: Entry| e@) }
    }
}

/// An INI document: sections in file order, each holding its lines.
pub struct Ini {
    sections: Vec<Section>,
}

impl View for Ini {
    type V = Seq<SectionView>;

    closed spec fn view(&self) -> Seq<SectionView> {
        self.sections@.map_values(|s: Section| s@)
    }
}

/// Whether a stored string matches the given characters, ignoring ASCII case.
fn matches_ic(stored: &String, wanted: &[char]) -> (r: bool)
    ensures
        r == eq_ic(stored@, wanted@),
{
    let v = chars_of(stored.as_str());
    eq_ignore_case(v.as_slice(), wanted)
}

/// Whether the characters spell the given text exactly.
fn is_text(v: &[char], lit: &str) -> (r: bool)
    ensures
        r == (v@ == lit@),
{
    let l = chars_of(lit);
    chars_eq(v, l.as_slice())
}

/// Lower case of the trimmed characters of a string.
fn folded(v: &str) -> (r: Vec<char>)
    ensures
        r@ == lower_seq(trim(v@)),
{
    let c = chars_of(v);
    let t = trim_chars(c.as_slice());
    lowercase(t.as_slice())
}

/// Trimmed characters of a string.
fn trimmed(v: &str) -> (r: Vec<char>)
    ensures
        r@ == trim(v@),
{
    let c = chars_of(v);
    trim_chars(c.as_slice())
}

/// Strips one pair of matching quotes.
fn unquote_chars(v: Vec<char>) -> (r: Vec<char>)
    ensures
        r@ == unquote(v@),
{
    let n = v.len();
    if n >= 2 && ((v[0] == '"' && v[n - 1] == '"') || (v[0] == '\'' && v[n - 1] == '\'')) {
        copy_range(v.as_slice(), 1, n - 1)
    } else {
        v
    }
}

/// Quotes a value when leading or trailing spaces would be lost on reread.
fn quote_if_needed_chars(v: &[char]) -> (r: Vec<char>)
    ensures
        r@ == quote_if_needed(v@),
{
    let t = trim_chars(v);
    if chars_eq(t.as_slice(), v) {
        copy_range(v, 0, v.len())
    } else {
        let mut r: Vec<char> = Vec::new();
        r.push('"');
        let mut i: usize = 0;
        while i < v.len()
            invariant
                i <= v@.len(),
                r@ == seq!['"'] + v@.take(i as int),
            decreases v@.len() - i,
        {
            r.push(v[i]);
            assert(seq!['"'] + v@.take(i + 1) =~= (seq!['"'] + v@.take(i as int)).push(v@[i as int]));
            i += 1;
        }
        r.push('"');
        assert(v@.take(v@.len() as int) =~= v@);
        r
    }
}

/// Writes a value into a list of entries, see `set_in`.
fn set_in_entries(entries: &mut Vec<Entry>, key: &[char], value: &str)
    ensures
        final(entries)@.map_values(|e: Entry| e@) == set_in(
            old(entries)@.map_values(|e: Entry| e@),
            key@,
            value@,
        ),
{
    let ghost before = old(entries)@.map_values(|e: Entry| e@);
    proof {
        lemma_pair_index(before, key@);
    }
    let mut j: usize = 0;
    while j < entries.len()
        invariant
            entries@ == old(entries)@,
            before == old(entries)@.map_values(|e: Entry| e@),
            j <= entries@.len(),
            forall|k: int| 0 <= k < j ==> !is_key(#[trigger] before[k], key@),
        decreases entries@.len() - j,
    {
        let hit = match &entries[j] {
            Entry::Pair { key: k, value: _ } => matches_ic(k, key),
            _ => false,
        };
        assert(hit == is_key(before[j as int], key@));
        if hit {
            let k = match &entries[j] {
                Entry::Pair { key: k, value: _ } => k.clone(),
                _ => String::new(),
            };
            proof {
                lemma_pair_index(before, key@);
            }
            assert(pair_index(before, key@) == j as int);
            entries.set(j, Entry::Pair { key: k, value: value.to_string() });
            assert(entries@.map_values(|e: Entry| e@) =~= set_in(before, key@, value@));
            return ;
        }
        j += 1;
    }
    assert(pair_index(before, key@) < 0);
    let ks = string_of(key);
    entries.push(Entry::Pair { key: ks, value: value.to_string() });
    assert(entries@.map_values(|e: Entry| e@) =~= set_in(before, key@, value@));
}

impl Ini {
    pub fn new() -> (r: Ini)
        ensures
            r@ == Seq::<SectionView>::empty(),
    {
        let r = Ini { sections: Vec::new() };
        assert(r@ =~= Seq::<SectionView>::empty());
        r
    }

    /// Makes sure a section of that name exists and returns its position.
    fn ensure_section(&mut self, name: &[char]) -> (i: usize)
        ensures
            final(self)@ == with_section(old(self)@, name@),
            i == section_index(final(self)@, name@),
            i < final(self)@.len(),
    {
        let ghost d = self@;
        proof {
            lemma_section_index(d, name@);
            lemma_with_section(d, name@);
        }
        let mut i: usize = 0;
        while i < self.sections.len()
            invariant
                self@ == d,
                i <= d.len(),
                forall|k: int| 0 <= k < i ==> !eq_ic(#[trigger] d[k].name, name@),
            decreases d.len() - i,
        {
            assert(self.sections@[i as int]@ == d[i as int]);
            assert(self.sections@[i as int].name@ == d[i as int].name);
            if matches_ic(&self.sections[i].name, name) {
                assert(eq_ic(d[i as int].name, name@));
                proof {
                    lemma_section_index(d, name@);
                }
                return i;
            }
            i += 1;
        }
        let sec = Section { name: string_of(name), entries: Vec::new() };
        self.sections.push(sec);
        assert(sec@.entries =~= Seq::<EntryView>::empty());
        assert(self@ =~= d.push(SectionView { name: name@, entries: Seq::empty() }));
        i
    }

    /// Position of the section of that name, if any.
    fn position(&self, name: &[char]) -> (r: Option<usize>)
        ensures
            r matches Some(i) ==> i == section_index(self@, name@) && i < self@.len(),
            r is None ==> section_index(self@, name@) < 0,
    {
        proof {
            lemma_section_index(self@, name@);
        }
        let mut i: usize = 0;
        while i < self.sections.len()
            invariant
                i <= self@.len(),
                forall|k: int| 0 <= k < i ==> !eq_ic(#[trigger] self@[k].name, name@),
            decreases self@.len() - i,
        {
            assert(self.sections@[i as int]@ == self@[i as int]);
            assert(self.sections@[i as int].name@ == self@[i as int].name);
            if matches_ic(&self.sections[i].name, name) {
                assert(eq_ic(self@[i as int].name, name@));
                proof {
                    lemma_section_index(self@, name@);
                }
                return Some(i);
            }
            i += 1;
        }
        None
    }

    /// Appends a line to a section, creating the section when needed.
    fn push_entry(&mut self, name: &[char], e: Entry)
        ensures
            final(self)@ == add_entry(old(self)@, name@, e@),
    {
        let i = self.ensure_section(name);
        let ghost mid = self@;
        let ghost ev = e@;
        let mut sec = self.sections.remove(i);
        assert(sec@ == mid[i as int]);
        let ghost before = sec.entries@;
        sec.entries.push(e);
        assert(sec.entries@.map_values(|x: Entry| x@) =~= before.map_values(|x: Entry| x@).push(
            ev,
        ));
        assert(sec@ == SectionView { name: mid[i as int].name, entries: mid[i as int].entries.push(ev) });
        self.sections.insert(i, sec);
        assert(self@ =~= mid.update(i as int, SectionView { name: mid[i as int].name, entries: mid[i as int].entries.push(ev) }));
    }

    /// Value stored under a key.
    fn find(&self, section: &[char], key: &[char]) -> (r: Option<&str>)
        ensures
            r matches Some(v) ==> find(self@, section@, key@) == Some(v@),
            r is None ==> find(self@, section@, key@) is None,
    {
        match self.position(section) {
            None => None,
            Some(i) => {
                let entries = &self.sections[i].entries;
                let ghost es = self@[i as int].entries;
                assert(es == entries@.map_values(|e: Entry| e@));
                proof {
                    lemma_pair_index(es, key@);
                }
                let mut j: usize = 0;
                while j < entries.len()
                    invariant
                        es == entries@.map_values(|e: Entry| e@),
                        i == section_index(self@, section@),
                        i < self@.len(),
                        es == self@[i as int].entries,
                        j <= es.len(),
                        forall|k: int| 0 <= k < j ==> !is_key(#[trigger] es[k], key@),
                    decreases es.len() - j,
                {
                    assert(es[j as int] == entries@[j as int]@);
                    match &entries[j] {
                        Entry::Pair { key: k, value: v } => {
                            if matches_ic(k, key) {
                                assert(is_key(es[j as int], key@));
                                proof {
                                    lemma_pair_index(es, key@);
                                }
                                assert(pair_index(es, key@) == j as int);
                                assert(pair_value(es[j as int]) == v@);
                                return Some(v.as_str());
                            }
                        },
                        _ => {},
                    }
                    j += 1;
                }
                None
            },
        }
    }

    /// True when a section of that name exists, compared ignoring ASCII case.
    pub fn has_section(&self, section: &str) -> (r: bool)
        ensures
            r == (section_index(self@, section@) >= 0),
    {
        let name = chars_of(section);
        self.position(name.as_slice()).is_some()
    }

    /// Value as it stands in the document, without conversion.
    ///
    /// The typed readers apply a default and clamp, which is what a subsystem
    /// wants and what a comparison must not have: a clamped value would read as
    /// equal to the default it was clamped towards.
    pub fn raw(&self, section: &str, key: &str) -> (r: Option<&str>)
        ensures
            r matches Some(v) ==> find(self@, section@, key@) == Some(v@),
            r is None ==> find(self@, section@, key@) is None,
    {
        let s = chars_of(section);
        let k = chars_of(key);
        self.find(s.as_slice(), k.as_slice())
    }

    fn set_pair(&mut self, section: &[char], key: &[char], value: &str)
        ensures
            final(self)@ == set_value(old(self)@, section@, key@, value@),
    {
        let i = self.ensure_section(section);
        let mut sec = self.sections.remove(i);
        set_in_entries(&mut sec.entries, key, value);
        self.sections.insert(i, sec);
        assert(self@ =~= set_value(old(self)@, section@, key@, value@));
    }

    /// Writes a value, replacing the first pair of that key or appending one.
    pub fn set_string(&mut self, section: &str, key: &str, value: &str)
        ensures
            final(self)@ == set_value(old(self)@, section@, key@, value@),
    {
        let s = chars_of(section);
        let k = chars_of(key);
        self.set_pair(s.as_slice(), k.as_slice(), value);
    }

    /// Value of a key as a string, or the default when absent.
    pub fn get_string(&self, section: &str, key: &str, default: &str) -> (r: String)
        ensures
            r@ == read_string(self@, section@, key@, default@),
    {
        match self.raw(section, key) {
            Some(v) => v.to_string(),
            None => default.to_string(),
        }
    }

    /// Boolean value: 1, true, yes, on and 0, false, no, off in any case; the
    /// default for anything else.
    pub fn get_bool(&self, section: &str, key: &str, default: bool) -> (r: bool)
        ensures
            r == read_bool(self@, section@, key@, default),
    {
        match self.raw(section, key) {
            None => default,
            Some(v) => {
                let t = folded(v);
                let t = t.as_slice();
                if is_text(t, "1") || is_text(t, "true") || is_text(t, "yes") || is_text(t, "on") {
                    true
                } else if is_text(t, "0") || is_text(t, "false") || is_text(t, "no") || is_text(
                    t,
                    "off",
                ) {
                    false
                } else {
                    default
                }
            },
        }
    }

    /// Unsigned number no larger than `max`, or the default.
    fn get_parsed(&self, section: &str, key: &str, default: u64, max: u64) -> (r: u64)
        requires
            default <= max,
        ensures
            r == read_unsigned(self@, section@, key@, default as nat, max as nat),
            r <= max,
    {
        match self.raw(section, key) {
            None => default,
            Some(v) => {
                let t = trimmed(v);
                match parse_unsigned_chars(t.as_slice(), max) {
                    Some(x) => x,
                    None => default,
                }
            },
        }
    }

    /// Signed number in `min..=max`, or the default.
    fn get_parsed_signed(&self, section: &str, key: &str, default: i64, min: i64, max: i64) -> (r: i64)
        requires
            min <= default <= max,
            min <= 0 <= max,
        ensures
            r == read_signed(self@, section@, key@, default as int, min as int, max as int),
            min <= r <= max,
    {
        match self.raw(section, key) {
            None => default,
            Some(v) => {
                let t = trimmed(v);
                match parse_signed_chars(t.as_slice(), min, max) {
                    Some(x) => x,
                    None => default,
                }
            },
        }
    }

    pub fn get_u32(&self, section: &str, key: &str, default: u32) -> (r: u32)
        ensures
            r == read_unsigned(self@, section@, key@, default as nat, u32::MAX as nat),
    {
        self.get_parsed(section, key, default as u64, u32::MAX as u64) as u32
    }

    pub fn get_i32(&self, section: &str, key: &str, default: i32) -> (r: i32)
        ensures
            r == read_signed(self@, section@, key@, default as int, i32::MIN as int, i32::MAX as int),
    {
        self.get_parsed_signed(section, key, default as i64, i32::MIN as i64, i32::MAX as i64) as i32
    }

    pub fn get_usize(&self, section: &str, key: &str, default: usize) -> (r: usize)
        ensures
            r == read_unsigned(self@, section@, key@, default as nat, usize::MAX as nat),
    {
        self.get_parsed(section, key, default as u64, usize::MAX as u64) as usize
    }

    /// Clamped numeric read for values where an out of range entry would
    /// break an invariant elsewhere, for example an FFT size of zero. An
    /// entry outside the range gives the default, itself clamped.
    pub fn get_u32_clamped(&self, section: &str, key: &str, default: u32, lo: u32, hi: u32) -> (r: u32)
        requires
            lo <= hi,
        ensures
            r == clamp_or_default(
                read_unsigned(self@, section@, key@, default as nat, u32::MAX as nat),
                default as nat,
                lo as nat,
                hi as nat,
            ),
            lo <= r <= hi,
    {
        let v = self.get_u32(section, key, default);
        if v < lo || v > hi {
            return if default < lo {
                lo
            } else if default > hi {
                hi
            } else {
                default
            };
        }
        v
    }

    /// Enumerated value, matched on the trimmed lower case text.
    pub fn get_enum<T: ConfigEnum>(&self, section: &str, key: &str, default: T) -> (r: T)
        ensures
            r == read_enum(self@, section@, key@, default),
    {
        match self.raw(section, key) {
            None => default,
            Some(v) => {
                let t = folded(v);
                let ts = string_of(t.as_slice());
                match T::from_config(ts.as_str()) {
                    Some(x) => x,
                    None => default,
                }
            },
        }
    }

    /// Comma separated list, empty items removed.
    pub fn get_list(&self, section: &str, key: &str) -> (r: Vec<String>)
        ensures
            r@.len() == read_list(self@, section@, key@).len(),
            forall|i: int| 0 <= i < r@.len() ==> #[trigger] r@[i]@ == read_list(self@, section@, key@)[i],
    {
        let mut out: Vec<String> = Vec::new();
        match self.raw(section, key) {
            None => {
                return out;
            },
            Some(v) => {
                let c = chars_of(v);
                let pieces = split_chars(c.as_slice(), ',');
                let ghost ps = split(v@, ',');
                let mut i: usize = 0;
                while i < pieces.len()
                    invariant
                        pieces@.len() == ps.len(),
                        forall|k: int| 0 <= k < pieces@.len() ==> #[trigger] pieces@[k]@ == ps[k],
                        i <= pieces@.len(),
                        out@.len() == keep_items(ps.take(i as int)).len(),
                        forall|k: int| 0 <= k < out@.len() ==> #[trigger] out@[k]@ == keep_items(ps.take(i as int))[k],
                    decreases pieces@.len() - i,
                {
                    let t = trim_chars(pieces[i].as_slice());
                    assert(ps.take(i + 1).drop_last() =~= ps.take(i as int));
                    if t.len() > 0 {
                        out.push(string_of(t.as_slice()));
                    }
                    i += 1;
                }
                assert(ps.take(i as int) =~= ps);
                out
            },
        }
    }

    pub fn set_bool(&mut self, section: &str, key: &str, value: bool)
        ensures
            final(self)@ == set_value(old(self)@, section@, key@, if value { "true"@ } else { "false"@ }),
    {
        self.set_string(section, key, if value { "true" } else { "false" });
    }

    pub fn set_u32(&mut self, section: &str, key: &str, value: u32)
        ensures
            final(self)@ == set_value(old(self)@, section@, key@, decimal(value as nat)),
    {
        let t = format_unsigned(value as u64);
        self.set_string(section, key, t.as_str());
    }

    pub fn set_i32(&mut self, section: &str, key: &str, value: i32)
        ensures
            final(self)@ == set_value(old(self)@, section@, key@, signed_decimal(value as int)),
    {
        let t = format_signed(value as i64);
        self.set_string(section, key, t.as_str());
    }

    pub fn set_usize(&mut self, section: &str, key: &str, value: usize)
        ensures
            final(self)@ == set_value(old(self)@, section@, key@, decimal(value as nat)),
    {
        let t = format_unsigned(value as u64);
        self.set_string(section, key, t.as_str());
    }

    pub fn set_enum<T: ConfigEnum>(&mut self, section: &str, key: &str, value: T)
        ensures
            final(self)@ == set_value(old(self)@, section@, key@, value.spec_to_config()),
    {
        self.set_string(section, key, value.to_config());
    }

    /// Writes a list as its items joined by a comma and a space.
    pub fn set_list(&mut self, section: &str, key: &str, items: &[String])
        ensures
            final(self)@ == set_value(old(self)@, section@, key@, join(items@.map_values(|s: String| s@))),
    {
        let ghost views = items@.map_values(|s: String| s@);
        let mut text = String::new();
        let mut i: usize = 0;
        while i < items.len()
            invariant
                views == items@.map_values(|s: String| s@),
                i <= items@.len(),
                text@ == join(views.take(i as int)),
            decreases items@.len() - i,
        {
            if i > 0 {
                push_char(&mut text, ',');
                push_char(&mut text, ' ');
            }
            push_str(&mut text, items[i].as_str());
            assert(views.take(i + 1).drop_last() =~= views.take(i as int));
            assert(views[i as int] == items@[i as int]@);
            proof {
                if i == 0 {
                    assert(text@ =~= join(views.take(1)));
                } else {
                    assert(text@ =~= join(views.take(i + 1)));
                }
            }
            i += 1;
        }
        assert(views.take(i as int) =~= views);
        self.set_string(section, key, text.as_str());
    }

    /// Every stated pair as (section, key, value), in file order.
    ///
    /// Present so two documents can be compared: a configuration and the one the
    /// build would have written are the same set of keys, so a difference between
    /// them is a difference in a value and nothing else.
    pub fn pairs(&self) -> (r: Vec<(&str, &str, &str)>)
        ensures
            r@.len() == all_pairs(self@).len(),
            forall|i: int| 0 <= i < r@.len() ==> (#[trigger] r@[i]).0@ == all_pairs(self@)[i].0
                && r@[i].1@ == all_pairs(self@)[i].1 && r@[i].2@ == all_pairs(self@)[i].2,
    {
        let mut out: Vec<(&str, &str, &str)> = Vec::new();
        let mut i: usize = 0;
        while i < self.sections.len()
            invariant
                i <= self@.len(),
                out@.len() == pairs_upto(self@, i as int).len(),
                forall|k: int| 0 <= k < out@.len() ==> (#[trigger] out@[k]).0@ == pairs_upto(self@, i as int)[k].0
                    && out@[k].1@ == pairs_upto(self@, i as int)[k].1 && out@[k].2@ == pairs_upto(self@, i as int)[k].2,
            decreases self@.len() - i,
        {
            let sec = &self.sections[i];
            assert(sec@ == self@[i as int]);
            let ghost base = pairs_upto(self@, i as int);
            let mut j: usize = 0;
            while j < sec.entries.len()
                invariant
                    sec@ == self@[i as int],
                    j <= sec@.entries.len(),
                    out@.len() == base.len() + section_pairs(sec@.name, sec@.entries.take(j as int)).len(),
                    forall|k: int| 0 <= k < out@.len() ==> (#[trigger] out@[k]).0@ == (base + section_pairs(sec@.name, sec@.entries.take(j as int)))[k].0
                        && out@[k].1@ == (base + section_pairs(sec@.name, sec@.entries.take(j as int)))[k].1
                        && out@[k].2@ == (base + section_pairs(sec@.name, sec@.entries.take(j as int)))[k].2,
                decreases sec@.entries.len() - j,
            {
                let ghost es = sec@.entries;
                assert(es[j as int] == sec.entries@[j as int]@);
                assert(es.take(j + 1).drop_last() =~= es.take(j as int));
                let ghost prev = base + section_pairs(sec@.name, es.take(j as int));
                match &sec.entries[j] {
                    Entry::Pair { key, value } => {
                        out.push((sec.name.as_str(), key.as_str(), value.as_str()));
                        assert(base + section_pairs(sec@.name, es.take(j + 1)) =~= prev.push((sec@.name, key@, value@)));
                    },
                    _ => {
                        assert(base + section_pairs(sec@.name, es.take(j + 1)) =~= prev);
                    },
                }
                j += 1;
            }
            assert(sec@.entries.take(j as int) =~= sec@.entries);
            i += 1;
        }
        out
    }

    /// Sections in file order, for a caller that iterates rather than looks up.
    ///
    /// Exposed because a station list is keyed by whatever the operator chose,
    /// so there is no fixed set of names to ask for.
    pub fn section_names(&self) -> (r: Vec<&str>)
        ensures
            r@.len() == section_names(self@).len(),
            forall|i: int| 0 <= i < r@.len() ==> #[trigger] r@[i]@ == section_names(self@)[i],
    {
        let mut out: Vec<&str> = Vec::new();
        let mut i: usize = 0;
        while i < self.sections.len()
            invariant
                i <= self@.len(),
                out@.len() == names_upto(self@, i as int).len(),
                forall|k: int| 0 <= k < out@.len() ==> #[trigger] out@[k]@ == names_upto(self@, i as int)[k],
            decreases self@.len() - i,
        {
            assert(self.sections@[i as int]@ == self@[i as int]);
            let name = self.sections[i].name.as_str();
            if !name.is_empty() {
                out.push(name);
            }
            i += 1;
        }
        out
    }

    /// Reads one line into the document.
    fn parse_line(&mut self, current: &mut Vec<char>, raw: &[char])
        ensures
            (final(self)@, final(current)@) == parse_line(old(self)@, old(current)@, raw@),
    {
        let line = trim_chars(raw);
        let n = line.len();
        if n == 0 {
            self.push_entry(current.as_slice(), Entry::Blank);
            return ;
        }
        if line[0] == ';' || line[0] == '#' {
            let rest = copy_range(line.as_slice(), 1, n);
            assert(rest@ == line@.drop_first());
            let text = trim_chars(rest.as_slice());
            self.push_entry(current.as_slice(), Entry::Comment(string_of(text.as_slice())));
            return ;
        }
        if line[0] == '[' {
            let e = find_from(line.as_slice(), 0, ']');
            if e < n {
                proof {
                    crate::text::lemma_next_of_bounds(line@, 0, ']');
                }
                let inner = copy_range(line.as_slice(), 1, e);
                let name = trim_chars(inner.as_slice());
                self.ensure_section(name.as_slice());
                *current = name;
            }
            return ;
        }
        let eq = find_from(line.as_slice(), 0, '=');
        if eq < n {
            let kraw = copy_range(line.as_slice(), 0, eq);
            let key = trim_chars(kraw.as_slice());
            if key.len() == 0 {
                return ;
            }
            let vraw = copy_range(line.as_slice(), eq + 1, n);
            let value = unquote_chars(trim_chars(vraw.as_slice()));
            let vs = string_of(value.as_slice());
            self.set_pair(current.as_slice(), key.as_slice(), vs.as_str());
        }
    }

    /// Reads a document. Never fails: malformed lines are skipped.
    pub fn parse(text: &str) -> (r: Ini)
        ensures
            r@ == parse_text(text@),
    {
        let chars = chars_of(text);
        let ls = lines_of(chars.as_slice());
        let ghost all = lines(text@);
        let mut doc = Ini { sections: Vec::new() };
        doc.sections.push(Section { name: String::new(), entries: Vec::new() });
        assert(doc@ =~= initial_doc()) by {
            assert(doc.sections@[0]@.entries =~= Seq::<EntryView>::empty());
        }
        let mut current: Vec<char> = Vec::new();
        let mut k: usize = 0;
        assert(all.take(0) =~= Seq::<Seq<char>>::empty());
        while k < ls.len()
            invariant
                ls@.len() == all.len(),
                all == lines(text@),
                forall|j: int| 0 <= j < ls@.len() ==> #[trigger] ls@[j]@ == all[j],
                k <= ls@.len(),
                (doc@, current@) == parse_lines(all.take(k as int)),
            decreases ls@.len() - k,
        {
            doc.parse_line(&mut current, ls[k].as_slice());
            assert(all.take(k + 1).drop_last() =~= all.take(k as int));
            k += 1;
        }
        assert(all.take(k as int) =~= all);
        doc
    }

    /// Writes the document as text, comments and blank lines included.
    pub fn to_text(&self) -> (r: String)
        ensures
            r@ == doc_text(self@),
    {
        let mut out = String::new();
        let mut i: usize = 0;
        while i < self.sections.len()
            invariant
                i <= self@.len(),
                out@ == sections_text(self@, i as int),
            decreases self@.len() - i,
        {
            let sec = &self.sections[i];
            assert(sec@ == self@[i as int]);
            if !sec.name.as_str().is_empty() {
                if i > 0 {
                    push_char(&mut out, '\n');
                }
                push_char(&mut out, '[');
                push_str(&mut out, sec.name.as_str());
                push_char(&mut out, ']');
                push_char(&mut out, '\n');
            }
            assert(out@ == sections_text(self@, i as int) + header_text(self@[i as int].name, i as int));
            let ghost base = out@;
            let mut j: usize = 0;
            while j < sec.entries.len()
                invariant
                    sec@ == self@[i as int],
                    j <= sec@.entries.len(),
                    out@ == base + entries_text(sec@.entries.take(j as int)),
                decreases sec@.entries.len() - j,
            {
                let ghost es = sec@.entries;
                assert(es[j as int] == sec.entries@[j as int]@);
                match &sec.entries[j] {
                    Entry::Pair { key, value } => {
                        push_str(&mut out, key.as_str());
                        push_char(&mut out, ' ');
                        push_char(&mut out, '=');
                        push_char(&mut out, ' ');
                        let vc = chars_of(value.as_str());
                        let q = quote_if_needed_chars(vc.as_slice());
                        append_chars(&mut out, q.as_slice());
                        push_char(&mut out, '\n');
                    },
                    Entry::Comment(c) => {
                        push_char(&mut out, ';');
                        push_char(&mut out, ' ');
                        push_str(&mut out, c.as_str());
                        push_char(&mut out, '\n');
                    },
                    Entry::Blank => {
                        push_char(&mut out, '\n');
                    },
                }
                assert(es.take(j + 1).drop_last() =~= es.take(j as int));
                assert(out@ =~= base + entries_text(es.take(j + 1)));
                j += 1;
            }
            assert(sec@.entries.take(j as int) =~= sec@.entries);
            i += 1;
        }
        out
    }

    /// Appends a documentation line to a section.
    pub fn comment(&mut self, section: &str, text: &str)
        ensures
            final(self)@ == add_entry(old(self)@, section@, EntryView::Comment(text@)),
    {
        let s = chars_of(section);
        self.push_entry(s.as_slice(), Entry::Comment(text.to_string()));
    }

    /// Appends an empty line to a section.
    pub fn blank(&mut self, section: &str)
        ensures
            final(self)@ == add_entry(old(self)@, section@, EntryView::Blank),
    {
        let s = chars_of(section);
        self.push_entry(s.as_slice(), Entry::Blank);
    }
}

} // verus!
