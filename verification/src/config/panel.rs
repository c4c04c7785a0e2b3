//! Composition of the side panel: which sections each tab holds, in order.

use vstd::prelude::*;
use crate::config::ini::{join, lemma_list_items_join, list_item, read_list, set_value, ConfigEnum, Ini, SectionView};
use crate::config::sections::{keys_plain, last_write, lemma_reads_back, write_lines, Line};
use crate::config::settings::{all_sections, lemma_panel_section_text, PanelSection};
use crate::text::{lemma_plain_text, lower_seq, lowercase, chars_of, plain_text, string_of};

verus! {

/// Composable tabs. The settings tab is deliberately absent: it carries the
/// controls that configure everything else, including this list, so a layout
/// that removed it would be unrecoverable from inside the application.
pub const PANEL_TABS: usize = 4;

/// The composition the build ships with. Every section appears exactly once.
pub open spec fn default_tabs() -> Seq<Seq<PanelSection>> {
    seq![
        seq![PanelSection::Rig, PanelSection::Receiver, PanelSection::Meter],
        seq![PanelSection::Audio, PanelSection::Monitor],
        seq![
            PanelSection::Spots,
            PanelSection::CwChannels,
            PanelSection::CwDecoder,
            PanelSection::RttyDecoder,
            PanelSection::PskDecoder,
            PanelSection::Classifier,
            PanelSection::Callsign,
        ],
        seq![PanelSection::Spectrum, PanelSection::Waterfall],
    ]
}

/// The tab the shipped composition holds a section on.
pub open spec fn home_tab(s: PanelSection) -> int {
    match s {
        PanelSection::Rig | PanelSection::Receiver | PanelSection::Meter => 0,
        PanelSection::Audio | PanelSection::Monitor => 1,
        PanelSection::Spectrum | PanelSection::Waterfall => 3,
        _ => 2,
    }
}

/// Key a tab's list is stored under.
pub open spec fn tab_key(i: int) -> Seq<char> {
    if i == 0 {
        "receive"@
    } else if i == 1 {
        "audio"@
    } else if i == 2 {
        "decode"@
    } else {
        "display"@
    }
}

/// `acc` followed by the items of `xs` it does not hold yet, in order.
pub open spec fn add_new(acc: Seq<PanelSection>, xs: Seq<PanelSection>) -> Seq<PanelSection>
    decreases xs.len(),
{
    if xs.len() == 0 {
        acc
    } else {
        let r = add_new(acc, xs.drop_last());
        if r.contains(xs.last()) {
            r
        } else {
            r.push(xs.last())
        }
    }
}

/// The sections a list of names names, in order, skipping unknown names.
pub open spec fn named_sections(names: Seq<Seq<char>>) -> Seq<PanelSection>
    decreases names.len(),
{
    if names.len() == 0 {
        Seq::empty()
    } else {
        let r = named_sections(names.drop_last());
        match PanelSection::spec_from_config(lower_seq(names.last())) {
            Some(s) => r.push(s),
            None => r,
        }
    }
}

/// Every tab's sections, tab after tab.
pub open spec fn flatten(tabs: Seq<Seq<PanelSection>>) -> Seq<PanelSection>
    decreases tabs.len(),
{
    if tabs.len() == 0 {
        Seq::empty()
    } else {
        flatten(tabs.drop_last()) + tabs.last()
    }
}

/// The tabs and the seen list once the first `n` sections of the build are
/// considered: a section never seen goes to the end of its home tab and
/// becomes seen.
pub open spec fn adopt_upto(tabs: Seq<Seq<PanelSection>>, known: Seq<PanelSection>, n: int) -> (
    Seq<Seq<PanelSection>>,
    Seq<PanelSection>,
)
    decreases n,
{
    if n <= 0 || n > all_sections().len() {
        (tabs, known)
    } else {
        let (t, k) = adopt_upto(tabs, known, n - 1);
        let s = all_sections()[n - 1];
        if k.contains(s) {
            (t, k)
        } else {
            (t.update(home_tab(s), t[home_tab(s)].push(s)), k.push(s))
        }
    }
}

/// What loading the panel section gives: the tabs and the seen list.
///
/// A tab whose key is absent keeps the shipped composition; when no tab key
/// is present at all, the whole shipped composition stands. The seen list is
/// the stored one, or, for a file written before it existed, whatever the
/// tabs hold. Sections never seen are then placed on their home tab.
pub open spec fn panel_loaded(d: Seq<SectionView>) -> (Seq<Seq<PanelSection>>, Seq<PanelSection>) {
    let raws = Seq::new(4, |i: int| read_list(d, "panel"@, tab_key(i)));
    if forall|i: int| 0 <= i < 4 ==> #[trigger] raws[i].len() == 0 {
        (default_tabs(), all_sections())
    } else {
        let tabs = Seq::new(
            4,
            |i: int|
                if raws[i].len() == 0 {
                    default_tabs()[i]
                } else {
                    add_new(Seq::empty(), named_sections(raws[i]))
                },
        );
        let k0 = add_new(Seq::empty(), named_sections(read_list(d, "panel"@, "known"@)));
        let k1 = if k0.len() == 0 {
            add_new(Seq::empty(), flatten(tabs))
        } else {
            k0
        };
        adopt_upto(tabs, k1, all_sections().len() as int)
    }
}

/// Names of sections, as they are written.
pub open spec fn section_names(xs: Seq<PanelSection>) -> Seq<Seq<char>> {
    xs.map_values(|s: PanelSection| s.spec_to_config())
}

#[derive(Debug, Clone)]
pub struct PanelSettings {
    /// One ordered list per composable tab, indexed by the tab position.
    pub tabs: [Vec<PanelSection>; PANEL_TABS],
    /// Sections this configuration has already seen.
    ///
    /// Without it there is no way to tell a section the operator removed from
    /// one a later build added, because both are absent from every tab. The
    /// first must stay removed and the second must appear, and those are
    /// opposite actions on the same evidence.
    known: Vec<PanelSection>,
}

fn contains(v: &Vec<PanelSection>, s: PanelSection) -> (r: bool)
    ensures
        r == v@.contains(s),
{
    let mut i: usize = 0;
    while i < v.len()
        invariant
            i <= v@.len(),
            forall|j: int| 0 <= j < i ==> v@[j] != s,
        decreases v@.len() - i,
    {
        if v[i] == s {
            assert(v@[i as int] == s);
            return true;
        }
        i += 1;
    }
    false
}

/// Key a tab's list is stored under.
fn tab_key_str(i: usize) -> (r: &'static str)
    requires
        i < PANEL_TABS,
    ensures
        r@ == tab_key(i as int),
{
    match i {
        0 => "receive",
        1 => "audio",
        2 => "decode",
        _ => "display",
    }
}

fn default_tab(i: usize) -> (r: Vec<PanelSection>)
    requires
        i < PANEL_TABS,
    ensures
        r@ == default_tabs()[i as int],
{
    let r = match i {
        0 => vec![PanelSection::Rig, PanelSection::Receiver, PanelSection::Meter],
        1 => vec![PanelSection::Audio, PanelSection::Monitor],
        2 => vec![
            PanelSection::Spots,
            PanelSection::CwChannels,
            PanelSection::CwDecoder,
            PanelSection::RttyDecoder,
            PanelSection::PskDecoder,
            PanelSection::Classifier,
            PanelSection::Callsign,
        ],
        _ => vec![PanelSection::Spectrum, PanelSection::Waterfall],
    };
    assert(r@ =~= default_tabs()[i as int]);
    r
}

fn home_of(s: PanelSection) -> (r: usize)
    ensures
        r as int == home_tab(s),
        r < PANEL_TABS,
{
    match s {
        PanelSection::Rig | PanelSection::Receiver | PanelSection::Meter => 0,
        PanelSection::Audio | PanelSection::Monitor => 1,
        PanelSection::Spectrum | PanelSection::Waterfall => 3,
        _ => 2,
    }
}

/// `v` followed by the sections of `xs` it does not hold yet.
fn push_new(v: &mut Vec<PanelSection>, xs: &[PanelSection])
    ensures
        final(v)@ == add_new(old(v)@, xs@),
{
    let ghost start = old(v)@;
    let mut i: usize = 0;
    while i < xs.len()
        invariant
            i <= xs@.len(),
            v@ == add_new(start, xs@.take(i as int)),
        decreases xs@.len() - i,
    {
        assert(xs@.take(i + 1).drop_last() =~= xs@.take(i as int));
        assert(xs@.take(i + 1).last() == xs@[i as int]);
        if !contains(v, xs[i]) {
            v.push(xs[i]);
        }
        i += 1;
    }
    assert(xs@.take(i as int) =~= xs@);
}

/// The sections a list of names names, without repeats, in order.
fn sections_named(names: &Vec<String>) -> (r: Vec<PanelSection>)
    ensures
        r@ == add_new(Seq::empty(), named_sections(names@.map_values(|s: String| s@))),
{
    let ghost views = names@.map_values(|s: String| s@);
    let mut found: Vec<PanelSection> = Vec::new();
    let mut i: usize = 0;
    while i < names.len()
        invariant
            i <= names@.len(),
            views == names@.map_values(|s: String| s@),
            found@ == named_sections(views.take(i as int)),
        decreases names@.len() - i,
    {
        assert(views.take(i + 1).drop_last() =~= views.take(i as int));
        assert(views.take(i + 1).last() == names@[i as int]@);
        let c = chars_of(names[i].as_str());
        let low = lowercase(c.as_slice());
        let t = string_of(low.as_slice());
        match PanelSection::from_config(t.as_str()) {
            Some(s) => found.push(s),
            None => {},
        }
        i += 1;
    }
    assert(views.take(i as int) =~= views);
    let mut r: Vec<PanelSection> = Vec::new();
    assert(r@ =~= Seq::<PanelSection>::empty());
    push_new(&mut r, found.as_slice());
    r
}


/// A copy of `v` with `s` appended.
fn with_pushed(v: &Vec<PanelSection>, s: PanelSection) -> (r: Vec<PanelSection>)
    ensures
        r@ == v@.push(s),
{
    let mut r: Vec<PanelSection> = Vec::new();
    let mut i: usize = 0;
    while i < v.len()
        invariant
            i <= v@.len(),
            r@ == v@.take(i as int),
        decreases v@.len() - i,
    {
        r.push(v[i]);
        assert(v@.take(i + 1) =~= v@.take(i as int).push(v@[i as int]));
        i += 1;
    }
    r.push(s);
    assert(v@.take(i as int) =~= v@);
    r
}

/// Adding the items of two lists is adding the items of their concatenation.
proof fn lemma_add_new_concat(a: Seq<PanelSection>, x: Seq<PanelSection>, y: Seq<PanelSection>)
    ensures
        add_new(a, x + y) == add_new(add_new(a, x), y),
    decreases y.len(),
{
    if y.len() == 0 {
        assert(x + y =~= x);
    } else {
        lemma_add_new_concat(a, x, y.drop_last());
        assert((x + y).drop_last() =~= x + y.drop_last());
        assert((x + y).last() == y.last());
    }
}

/// Every section of the build is in the list of all sections.
proof fn lemma_all_sections_complete(s: PanelSection)
    ensures
        all_sections().contains(s),
{
    let a = all_sections();
    match s {
        PanelSection::Rig => assert(a[0] == s),
        PanelSection::Receiver => assert(a[1] == s),
        PanelSection::Meter => assert(a[2] == s),
        PanelSection::Audio => assert(a[3] == s),
        PanelSection::Monitor => assert(a[4] == s),
        PanelSection::Spectrum => assert(a[5] == s),
        PanelSection::Waterfall => assert(a[6] == s),
        PanelSection::CwChannels => assert(a[7] == s),
        PanelSection::CwDecoder => assert(a[8] == s),
        PanelSection::RttyDecoder => assert(a[9] == s),
        PanelSection::PskDecoder => assert(a[10] == s),
        PanelSection::Classifier => assert(a[11] == s),
        PanelSection::Callsign => assert(a[12] == s),
        PanelSection::Spots => assert(a[13] == s),
    }
}

proof fn lemma_adopt_upto(tabs: Seq<Seq<PanelSection>>, known: Seq<PanelSection>, n: int)
    requires
        0 <= n <= all_sections().len(),
        tabs.len() == 4,
    ensures
        adopt_upto(tabs, known, n).0.len() == 4,
        forall|j: int| 0 <= j < n ==> adopt_upto(tabs, known, n).1.contains(#[trigger] all_sections()[j]),
        forall|x: PanelSection| known.contains(x) ==> adopt_upto(tabs, known, n).1.contains(x),
    decreases n,
{
    if n > 0 {
        lemma_adopt_upto(tabs, known, n - 1);
        let (t, k) = adopt_upto(tabs, known, n - 1);
        let s = all_sections()[n - 1];
        if !k.contains(s) {
            assert(k.push(s)[k.len() as int] == s);
            assert forall|x: PanelSection| k.contains(x) implies k.push(s).contains(x) by {
                let j = choose|j: int| 0 <= j < k.len() && k[j] == x;
                assert(k.push(s)[j] == x);
            }
        }
    }
}

/// Whatever a document holds, every section of the build has been seen once
/// the panel section is loaded: a section the file never mentioned is placed
/// rather than lost.
pub proof fn lemma_loaded_knows_every_section(d: Seq<SectionView>, s: PanelSection)
    ensures
        panel_loaded(d).1.contains(s),
        panel_loaded(d).0.len() == 4,
{
    lemma_all_sections_complete(s);
    let j = choose|j: int| 0 <= j < all_sections().len() && all_sections()[j] == s;
    let raws = Seq::new(4, |i: int| read_list(d, "panel"@, tab_key(i)));
    if !(forall|i: int| 0 <= i < 4 ==> #[trigger] raws[i].len() == 0) {
        let tabs = Seq::new(
            4,
            |i: int|
                if raws[i].len() == 0 {
                    default_tabs()[i]
                } else {
                    add_new(Seq::empty(), named_sections(raws[i]))
                },
        );
        let k0 = add_new(Seq::empty(), named_sections(read_list(d, "panel"@, "known"@)));
        let k1 = if k0.len() == 0 {
            add_new(Seq::empty(), flatten(tabs))
        } else {
            k0
        };
        lemma_adopt_upto(tabs, k1, all_sections().len() as int);
    }
}

impl PanelSettings {
    /// Each tab's sections, in tab order.
    pub closed spec fn tab_views(&self) -> Seq<Seq<PanelSection>> {
        self.tabs@.map_values(|v: Vec<PanelSection>| v@)
    }

    /// Sections this configuration has already seen.
    pub closed spec fn known_view(&self) -> Seq<PanelSection> {
        self.known@
    }

    pub fn sections(&self, tab: usize) -> (r: &[PanelSection])
        ensures
            tab < PANEL_TABS ==> r@ == self.tab_views()[tab as int],
            tab >= PANEL_TABS ==> r@ == Seq::<PanelSection>::empty(),
    {
        if tab < PANEL_TABS {
            self.tabs[tab].as_slice()
        } else {
            &[]
        }
    }

    /// Restores one tab to the composition the build ships with.
    ///
    /// The editor can empty a tab, and an empty tab offers no way to tell
    /// whether the composition is deliberate or lost. A restore per tab is the
    /// smallest action that always leads back to a known state.
    pub fn reset_tab(&mut self, tab: usize)
        ensures
            tab < PANEL_TABS ==> final(self).tab_views() == old(self).tab_views().update(
                tab as int,
                default_tabs()[tab as int],
            ),
            tab >= PANEL_TABS ==> final(self).tab_views() == old(self).tab_views(),
            final(self).known_view() == old(self).known_view(),
    {
        if tab < PANEL_TABS {
            self.tabs[tab] = default_tab(tab);
            assert(self.tab_views() =~= old(self).tab_views().update(tab as int, default_tabs()[tab as int]));
        }
    }

    /// Places sections the configuration has never seen.
    ///
    /// A section added by a later build reaches no tab, and nothing in the
    /// interface reveals that it exists. It is placed where the defaults hold
    /// it, which is the one position that is not arbitrary.
    ///
    /// A section the operator removed is equally absent, and is left alone: it
    /// appears in the seen list, so the two cases are distinguished by evidence
    /// rather than by guessing which is more likely.
    fn adopt_unknown(&mut self)
        ensures
            (final(self).tab_views(), final(self).known_view()) == adopt_upto(
                old(self).tab_views(),
                old(self).known_view(),
                all_sections().len() as int,
            ),
    {
        let all = PanelSection::all();
        let mut i: usize = 0;
        while i < all.len()
            invariant
                all@ == all_sections(),
                i <= all@.len(),
                (self.tab_views(), self.known_view()) == adopt_upto(
                    old(self).tab_views(),
                    old(self).known_view(),
                    i as int,
                ),
                self.tab_views().len() == 4,
            decreases all@.len() - i,
        {
            let s = all[i];
            if !contains(&self.known, s) {
                let h = home_of(s);
                let t = with_pushed(&self.tabs[h], s);
                let ghost before = self.tab_views();
                self.tabs[h] = t;
                self.known.push(s);
                assert(self.tab_views() =~= before.update(home_tab(s), before[home_tab(s)].push(s)));
            }
            i += 1;
        }
    }

    /// What `load` reads out of a document.
    pub open spec fn loaded(d: Seq<SectionView>, r: &PanelSettings) -> bool {
        (r.tab_views(), r.known_view()) == panel_loaded(d)
    }

    pub fn load(ini: &Ini) -> (r: Self)
        ensures
            Self::loaded(ini@, &r),
    {
        let ghost raws = Seq::new(4, |i: int| read_list(ini@, "panel"@, tab_key(i)));
        let ghost spec_tabs = Seq::new(
            4,
            |i: int|
                if raws[i].len() == 0 {
                    default_tabs()[i]
                } else {
                    add_new(Seq::empty(), named_sections(raws[i]))
                },
        );
        let mut result = PanelSettings {
            tabs: [Vec::new(), Vec::new(), Vec::new(), Vec::new()],
            known: Vec::new(),
        };
        let mut stored = false;
        let mut index: usize = 0;
        while index < PANEL_TABS
            invariant
                index <= PANEL_TABS,
                raws == Seq::new(4, |i: int| read_list(ini@, "panel"@, tab_key(i))),
                spec_tabs == Seq::new(
                    4,
                    |i: int|
                        if raws[i].len() == 0 {
                            default_tabs()[i]
                        } else {
                            add_new(Seq::empty(), named_sections(raws[i]))
                        },
                ),
                result.tab_views().len() == 4,
                forall|j: int| 0 <= j < index ==> #[trigger] result.tab_views()[j] == spec_tabs[j],
                stored == exists|j: int| 0 <= j < index && #[trigger] raws[j].len() > 0,
            decreases PANEL_TABS - index,
        {
            let raw = ini.get_list("panel", tab_key_str(index));
            assert(raw@.map_values(|s: String| s@) =~= raws[index as int]);
            let ghost before = result.tab_views();
            if raw.len() == 0 {
                result.tabs[index] = default_tab(index);
            } else {
                stored = true;
                result.tabs[index] = sections_named(&raw);
            }
            assert(result.tab_views() =~= before.update(index as int, spec_tabs[index as int]));
            index += 1;
        }
        if !stored {
            assert(forall|i: int| 0 <= i < 4 ==> #[trigger] raws[i].len() == 0);
            return PanelSettings::default();
        }
        assert(result.tab_views() =~= spec_tabs);
        let known_raw = ini.get_list("panel", "known");
        assert(known_raw@.map_values(|s: String| s@) =~= read_list(ini@, "panel"@, "known"@));
        let mut known = sections_named(&known_raw);
        if known.len() == 0 {
            let ghost t = spec_tabs;
            let mut k: Vec<PanelSection> = Vec::new();
            assert(k@ =~= Seq::<PanelSection>::empty());
            push_new(&mut k, result.tabs[0].as_slice());
            push_new(&mut k, result.tabs[1].as_slice());
            push_new(&mut k, result.tabs[2].as_slice());
            push_new(&mut k, result.tabs[3].as_slice());
            proof {
                reveal_with_fuel(flatten, 5);
                let e = Seq::<PanelSection>::empty();
                assert(t[0] == result.tabs@[0]@);
                assert(t[1] == result.tabs@[1]@);
                assert(t[2] == result.tabs@[2]@);
                assert(t[3] == result.tabs@[3]@);
                assert(t.drop_last().drop_last().drop_last().drop_last() =~= Seq::<Seq<PanelSection>>::empty());
                assert(flatten(t) =~= e + t[0] + t[1] + t[2] + t[3]);
                lemma_add_new_concat(e, e + t[0] + t[1] + t[2], t[3]);
                lemma_add_new_concat(e, e + t[0] + t[1], t[2]);
                lemma_add_new_concat(e, e + t[0], t[1]);
                assert(e + t[0] =~= t[0]);
            }
            known = k;
        }
        result.known = known;
        result.adopt_unknown();
        result
    }

    /// The lines `store` writes.
    pub open spec fn lines(&self) -> Seq<Line> {
        let t = self.tab_views();
        seq![
            Line::Note("Composition of the side panel, one ordered list per tab."@),
            Line::Note("Sections: rig, receiver, meter, audio, monitor, spectrum, waterfall,"@),
            Line::Note("cw_channels, cw_decoder, rtty_decoder, psk_decoder, classifier,"@),
            Line::Note("callsign, spots."@),
            Line::Note("Edited from the settings tab."@),
            Line::Value(tab_key(0), join(section_names(t[0]))),
            Line::Value(tab_key(1), join(section_names(t[1]))),
            Line::Value(tab_key(2), join(section_names(t[2]))),
            Line::Value(tab_key(3), join(section_names(t[3]))),
            Line::Note("known lists the sections this configuration has met. One absent from"@),
            Line::Note("it is new to the build and is placed on its default tab; one present"@),
            Line::Note("here but on no tab was removed deliberately and stays removed."@),
            Line::Value("known"@, join(section_names(add_new(self.known_view(), flatten(t))))),
        ]
    }

    pub fn store(&self, ini: &mut Ini)
        ensures
            final(ini)@ == write_lines(old(ini)@, "panel"@, self.lines()),
    {
        let s = "panel";
        let ghost d0 = ini@;
        ini.comment(s, "Composition of the side panel, one ordered list per tab.");
        ini.comment(s, "Sections: rig, receiver, meter, audio, monitor, spectrum, waterfall,");
        ini.comment(s, "cw_channels, cw_decoder, rtty_decoder, psk_decoder, classifier,");
        ini.comment(s, "callsign, spots.");
        ini.comment(s, "Edited from the settings tab.");
        let mut index: usize = 0;
        let ghost lines = self.lines();
        assert(ini@ == write_lines(d0, "panel"@, lines.take(5))) by {
            reveal_with_fuel(write_lines, 6);
            assert(lines.take(5).drop_last().drop_last().drop_last().drop_last().drop_last() =~= Seq::<Line>::empty());
        }
        while index < PANEL_TABS
            invariant
                index <= PANEL_TABS,
                lines == self.lines(),
                s@ == "panel"@,
                ini@ == write_lines(d0, "panel"@, lines.take(5 + index)),
            decreases PANEL_TABS - index,
        {
            let ghost before = ini@;
            let tab = self.tabs[index].as_slice();
            assert(tab@ == self.tab_views()[index as int]);
            let names = names_of(tab);
            let key = tab_key_str(index);
            let items = names.as_slice();
            assert(items@ == names@);
            ini.set_list(s, key, items);
            assert(items@.map_values(|s: String| s@) == section_names(self.tab_views()[index as int]));
            assert(ini@ == set_value(before, "panel"@, tab_key(index as int), join(section_names(self.tab_views()[index as int]))));
            proof {
                assert(lines.take(5 + index + 1).drop_last() =~= lines.take(5 + index));
                assert(lines.take(5 + index + 1).last() == lines[5 + index]);
                assert(lines[5 + index] == Line::Value(tab_key(index as int), join(section_names(self.tab_views()[index as int]))));
                assert(self.tab_views()[index as int] == self.tabs@[index as int]@);
            }
            index += 1;
        }
        let mut seen: Vec<PanelSection> = Vec::new();
        let mut j: usize = 0;
        while j < self.known.len()
            invariant
                j <= self.known@.len(),
                seen@ == self.known@.take(j as int),
            decreases self.known@.len() - j,
        {
            seen.push(self.known[j]);
            assert(self.known@.take(j + 1) =~= self.known@.take(j as int).push(self.known@[j as int]));
            j += 1;
        }
        assert(self.known@.take(j as int) =~= self.known@);
        push_new(&mut seen, self.tabs[0].as_slice());
        push_new(&mut seen, self.tabs[1].as_slice());
        push_new(&mut seen, self.tabs[2].as_slice());
        push_new(&mut seen, self.tabs[3].as_slice());
        proof {
            let t = self.tab_views();
            let k = self.known_view();
            reveal_with_fuel(flatten, 5);
            let e = Seq::<PanelSection>::empty();
            assert(t.drop_last().drop_last().drop_last().drop_last() =~= Seq::<Seq<PanelSection>>::empty());
            assert(flatten(t) =~= e + t[0] + t[1] + t[2] + t[3]);
            lemma_add_new_concat(k, e + t[0] + t[1] + t[2], t[3]);
            lemma_add_new_concat(k, e + t[0] + t[1], t[2]);
            lemma_add_new_concat(k, e + t[0], t[1]);
            assert(e + t[0] =~= t[0]);
        }
        ini.comment(s, "known lists the sections this configuration has met. One absent from");
        assert(ini@ == write_lines(d0, "panel"@, lines.take(10))) by {
            assert(lines.take(10).drop_last() =~= lines.take(9));
            assert(lines.take(10).last() == lines[9]);
        }
        ini.comment(s, "it is new to the build and is placed on its default tab; one present");
        assert(ini@ == write_lines(d0, "panel"@, lines.take(11))) by {
            assert(lines.take(11).drop_last() =~= lines.take(10));
            assert(lines.take(11).last() == lines[10]);
        }
        ini.comment(s, "here but on no tab was removed deliberately and stays removed.");
        assert(ini@ == write_lines(d0, "panel"@, lines.take(12))) by {
            assert(lines.take(12).drop_last() =~= lines.take(11));
            assert(lines.take(12).last() == lines[11]);
        }
        let names = names_of(seen.as_slice());
        ini.set_list(s, "known", names.as_slice());
        assert(ini@ == write_lines(d0, "panel"@, lines.take(13))) by {
            assert(lines.take(13).drop_last() =~= lines.take(12));
            assert(lines.take(13).last() == lines[12]);
        }
        assert(lines.take(13) =~= lines);
    }
}


/// Names of sections, as they are written.
fn names_of(xs: &[PanelSection]) -> (r: Vec<String>)
    ensures
        r@.map_values(|s: String| s@) == section_names(xs@),
{
    let mut r: Vec<String> = Vec::new();
    let mut i: usize = 0;
    while i < xs.len()
        invariant
            i <= xs@.len(),
            r@.len() == i,
            forall|k: int| 0 <= k < i ==> #[trigger] r@[k]@ == xs@[k].spec_to_config(),
        decreases xs@.len() - i,
    {
        let name = xs[i].to_config();
        r.push(string_of_str(name));
        i += 1;
    }
    assert(r@.map_values(|s: String| s@) =~= section_names(xs@));
    r
}

fn string_of_str(t: &str) -> (r: String)
    ensures
        r@ == t@,
{
    let c = chars_of(t);
    string_of(c.as_slice())
}

impl Default for PanelSettings {
    fn default() -> (r: Self)
        ensures
            r.tab_views() == default_tabs(),
            r.known_view() == all_sections(),
    {
        let r = PanelSettings {
            tabs: [default_tab(0), default_tab(1), default_tab(2), default_tab(3)],
            known: PanelSection::all(),
        };
        assert(r.tab_views() =~= default_tabs());
        r
    }
}


// ------------------------------------------------------------ round trip

/// No section twice.
pub open spec fn no_repeats(xs: Seq<PanelSection>) -> bool {
    forall|a: int, b: int| 0 <= a < b < xs.len() ==> #[trigger] xs[a] != #[trigger] xs[b]
}

/// A layout that saving and loading keeps as it is: every tab holds at least
/// one section and none twice, the seen list holds no section twice, and every
/// section of the build has been seen, as after any load.
pub open spec fn keepable(tabs: Seq<Seq<PanelSection>>, known: Seq<PanelSection>) -> bool {
    &&& tabs.len() == 4
    &&& forall|i: int| 0 <= i < 4 ==> (#[trigger] tabs[i]).len() > 0 && no_repeats(tabs[i])
    &&& no_repeats(known)
    &&& forall|x: PanelSection| known.contains(x)
}

proof fn lemma_section_name_item(x: PanelSection)
    ensures
        list_item(x.spec_to_config()),
        PanelSection::spec_from_config(lower_seq(x.spec_to_config())) == Some(x),
{
    lemma_panel_section_text(x);
    lemma_plain_text(x.spec_to_config());
    reveal_strlit("audio");
    reveal_strlit("callsign");
    reveal_strlit("classifier");
    reveal_strlit("cw_channels");
    reveal_strlit("cw_decoder");
    reveal_strlit("meter");
    reveal_strlit("monitor");
    reveal_strlit("psk_decoder");
    reveal_strlit("receiver");
    reveal_strlit("rig");
    reveal_strlit("rtty_decoder");
    reveal_strlit("spectrum");
    reveal_strlit("spots");
    reveal_strlit("waterfall");
}

proof fn lemma_named_names(t: Seq<PanelSection>)
    ensures
        named_sections(section_names(t)) == t,
        forall|i: int| 0 <= i < section_names(t).len() ==> list_item(#[trigger] section_names(t)[i]),
    decreases t.len(),
{
    if t.len() > 0 {
        lemma_named_names(t.drop_last());
        assert(section_names(t).drop_last() =~= section_names(t.drop_last()));
        lemma_section_name_item(t.last());
        assert(t =~= t.drop_last().push(t.last()));
        assert forall|i: int| 0 <= i < section_names(t).len() implies list_item(#[trigger] section_names(t)[i]) by {
            lemma_section_name_item(t[i]);
        }
    } else {
        assert(section_names(t) =~= Seq::<Seq<char>>::empty());
    }
}

proof fn lemma_add_new_fresh(t: Seq<PanelSection>)
    requires
        no_repeats(t),
    ensures
        add_new(Seq::empty(), t) == t,
    decreases t.len(),
{
    if t.len() > 0 {
        let d = t.drop_last();
        assert forall|a: int, b: int| 0 <= a < b < d.len() implies #[trigger] d[a] != #[trigger] d[b] by {
            assert(d[a] == t[a] && d[b] == t[b]);
        }
        lemma_add_new_fresh(d);
        if d.contains(t.last()) {
            let j = choose|j: int| 0 <= j < d.len() && d[j] == t.last();
            assert(t[j] == t[t.len() - 1]);
        }
        assert(t =~= d.push(t.last()));
    }
}

/// Adding what is already there adds nothing.
proof fn lemma_add_new_known(acc: Seq<PanelSection>, xs: Seq<PanelSection>)
    requires
        forall|x: PanelSection| acc.contains(x),
    ensures
        add_new(acc, xs) == acc,
    decreases xs.len(),
{
    if xs.len() > 0 {
        lemma_add_new_known(acc, xs.drop_last());
    }
}

/// Nothing to place when every section has been seen.
proof fn lemma_adopt_none(tabs: Seq<Seq<PanelSection>>, known: Seq<PanelSection>, n: int)
    requires
        forall|x: PanelSection| known.contains(x),
    ensures
        adopt_upto(tabs, known, n) == (tabs, known),
    decreases n,
{
    if n > 0 && n <= all_sections().len() {
        lemma_adopt_none(tabs, known, n - 1);
    }
}

/// Saving a layout and loading it back gives the same layout. In particular a
/// section removed from every tab, which stays on the seen list, stays removed.
#[verifier::spinoff_prover]
#[verifier::rlimit(80)]
pub proof fn lemma_panel_round_trip(d: Seq<SectionView>, x: PanelSettings)
    requires
        keepable(x.tab_views(), x.known_view()),
    ensures
        panel_loaded(write_lines(d, "panel"@, x.lines())) == (x.tab_views(), x.known_view()),
{
    let t = x.tab_views();
    let k = x.known_view();
    let lines = x.lines();
    let s = "panel"@;
    let w = write_lines(d, s, lines);
    lemma_add_new_known(k, flatten(t));
    let seen = add_new(k, flatten(t));
    assert(seen == k);
    assert(keys_plain(lines)) by {
        reveal_with_fuel(keys_plain, 14);
        reveal_with_fuel(plain_text, 10);
        reveal_strlit("receive");
        reveal_strlit("audio");
        reveal_strlit("decode");
        reveal_strlit("display");
        reveal_strlit("known");
    }
    assert(plain_text("receive"@) && plain_text("audio"@) && plain_text("decode"@) && plain_text("display"@)
        && plain_text("known"@)) by {
        reveal_with_fuel(plain_text, 10);
        reveal_strlit("receive");
        reveal_strlit("audio");
        reveal_strlit("decode");
        reveal_strlit("display");
        reveal_strlit("known");
    }
    assert forall|i: int| 0 <= i < 4 implies #[trigger] last_write(lines, tab_key(i)) == Some(
        join(section_names(t[i])),
    ) by {
        reveal_with_fuel(last_write, 14);
        reveal_strlit("receive");
        reveal_strlit("audio");
        reveal_strlit("decode");
        reveal_strlit("display");
        reveal_strlit("known");
    }
    assert(last_write(lines, "known"@) == Some(join(section_names(seen)))) by {
        reveal_with_fuel(last_write, 14);
        reveal_strlit("receive");
        reveal_strlit("audio");
        reveal_strlit("decode");
        reveal_strlit("display");
        reveal_strlit("known");
    }
    let raws = Seq::new(4, |i: int| read_list(w, "panel"@, tab_key(i)));
    assert forall|i: int| 0 <= i < 4 implies #[trigger] raws[i] == section_names(t[i]) by {
        lemma_reads_back(d, s, lines, tab_key(i));
        lemma_named_names(t[i]);
        lemma_list_items_join(section_names(t[i]));
    }
    assert(raws[0].len() > 0);
    let tabs = Seq::new(
        4,
        |i: int|
            if raws[i].len() == 0 {
                default_tabs()[i]
            } else {
                add_new(Seq::empty(), named_sections(raws[i]))
            },
    );
    assert forall|i: int| 0 <= i < 4 implies #[trigger] tabs[i] == t[i] by {
        lemma_named_names(t[i]);
        lemma_add_new_fresh(t[i]);
    }
    assert(tabs =~= t);
    lemma_reads_back(d, s, lines, "known"@);
    lemma_named_names(k);
    lemma_list_items_join(section_names(k));
    lemma_add_new_fresh(k);
    let k0 = add_new(Seq::empty(), named_sections(read_list(w, "panel"@, "known"@)));
    assert(k0 == k);
    lemma_all_sections_complete(PanelSection::Rig);
    assert(k.len() > 0) by {
        assert(k.contains(PanelSection::Rig));
    }
    lemma_adopt_none(t, k, all_sections().len() as int);
}

} // verus!
