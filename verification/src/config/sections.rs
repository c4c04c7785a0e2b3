//! Settings sections made of whole numbers, flags, enumerations and text.
//!
//! Every section has a load, which reads each key with its default and its
//! clamp, and a store, which writes each key with the documentation lines the
//! operator reads in the file. What is stored loads back as it was.

use vstd::prelude::*;
use crate::common::log::Level;
use crate::config::ini::{
    add_entry, bool_value_text, clamp_or_default, find, lemma_annotation_leaves_values,
    lemma_bool_text, lemma_decimal_text, lemma_read_after_write, lemma_signed_text,
    lemma_write_leaves_others, read_bool, read_enum, read_signed, read_string, read_unsigned,
    set_value, read_list, list_item, join, lemma_list_items_join, ConfigEnum, EntryView, Ini,
    SectionView,
};
use crate::number::{
    format_signed, is_digit, lemma_decimal, parse_signed, parse_signed_chars,
    decimal, format_hex_padded, hex_upper, lemma_parse_hex_padded, pad_zeros, parse_hex, parse_hex_chars, signed_decimal,
};
use crate::config::settings::{
    lemma_callsign_source_text, lemma_detector_text, lemma_log_level_cfg_text, Detector, lemma_present_mode_cfg_text, CallsignSource,
    LogLevelCfg, PresentModeCfg,
};
use crate::text::{
    lemma_clean_ends, back_ws, chars_of, copy_range, eq_ic, eq_ignore_case, is_ws, lemma_eq_ic_refl, lemma_eq_ic_sym,
    lemma_plain_apart, lemma_plain_text, lemma_split_concat, lemma_split_none, lemma_trim_no_ws,
    lemma_trimmed_ends, lower_seq, lowercase, plain_text, push_char, push_str, skip_ws, split,
    split_chars, string_of, trim, trim_chars,
};

verus! {

// ------------------------------------------------------------- writing

/// A line a section writes: a note for the operator, or a value under a key.
pub enum Line {
    Note(Seq<char>),
    Value(Seq<char>, Seq<char>),
}

/// The document after one line is written to a section.
pub open spec fn write_line(d: Seq<SectionView>, s: Seq<char>, l: Line) -> Seq<SectionView> {
    match l {
        Line::Note(t) => add_entry(d, s, EntryView::Comment(t)),
        Line::Value(k, v) => set_value(d, s, k, v),
    }
}

/// The document after the lines are written to a section, in order.
pub open spec fn write_lines(d: Seq<SectionView>, s: Seq<char>, lines: Seq<Line>) -> Seq<SectionView>
    decreases lines.len(),
{
    if lines.len() == 0 {
        d
    } else {
        write_line(write_lines(d, s, lines.drop_last()), s, lines.last())
    }
}

/// The value the last line writing exactly `k` gives it.
pub open spec fn last_write(lines: Seq<Line>, k: Seq<char>) -> Option<Seq<char>>
    decreases lines.len(),
{
    if lines.len() == 0 {
        None
    } else {
        match lines.last() {
            Line::Value(k2, v) => if k2 == k {
                Some(v)
            } else {
                last_write(lines.drop_last(), k)
            },
            Line::Note(_) => last_write(lines.drop_last(), k),
        }
    }
}

/// Every key the lines write is plain: no spaces and no upper case letters.
pub open spec fn keys_plain(lines: Seq<Line>) -> bool
    decreases lines.len(),
{
    if lines.len() == 0 {
        true
    } else {
        keys_plain(lines.drop_last()) && match lines.last() {
            Line::Value(k, _) => plain_text(k),
            Line::Note(_) => true,
        }
    }
}

/// A plain key reads back what the last line writing it wrote, whatever else
/// the lines write.
pub proof fn lemma_reads_back(d: Seq<SectionView>, s: Seq<char>, lines: Seq<Line>, k: Seq<char>)
    requires
        keys_plain(lines),
        plain_text(k),
        last_write(lines, k) is Some,
    ensures
        find(write_lines(d, s, lines), s, k) == last_write(lines, k),
    decreases lines.len(),
{
    let prev = lines.drop_last();
    let p = write_lines(d, s, prev);
    match lines.last() {
        Line::Note(t) => {
            lemma_annotation_leaves_values(p, s, EntryView::Comment(t), s, k);
            lemma_reads_back(d, s, prev, k);
        },
        Line::Value(k2, v) => {
            if k2 == k {
                lemma_read_after_write(p, s, k, v);
            } else {
                lemma_plain_apart(k2, k);
                lemma_write_leaves_others(p, s, k2, v, s, k);
                lemma_reads_back(d, s, prev, k);
            }
        },
    }
}

// ----------------------------------------------------------------- log

#[derive(Debug, Clone)]
pub struct LogSettings {
    pub level: Level,
    pub file_path: String,
    pub to_debugger: bool,
    /// Rotate when the file exceeds this size, 0 disables rotation.
    pub max_size_kb: u32,
    /// Append every decoded line to a separate transcript file.
    pub transcript_enabled: bool,
    pub transcript_path: String,
}

impl Default for LogSettings {
    fn default() -> (r: Self)
        ensures
            r.level == Level::Info,
            r.file_path@ == "logs/rxscope.log"@,
            r.to_debugger,
            r.max_size_kb == 4096,
            r.transcript_enabled,
            r.transcript_path@ == "logs/transcript.txt"@,
    {
        LogSettings {
            level: Level::Info,
            file_path: "logs/rxscope.log".to_string(),
            to_debugger: true,
            max_size_kb: 4096,
            transcript_enabled: true,
            transcript_path: "logs/transcript.txt".to_string(),
        }
    }
}

impl LogSettings {
    /// What `load` reads out of a document.
    pub open spec fn loaded(d: Seq<SectionView>, r: &LogSettings) -> bool {
        &&& r.level == read_enum(d, "log"@, "level"@, LogLevelCfg::Info).spec_to_level()
        &&& r.file_path@ == read_string(d, "log"@, "file_path"@, "logs/rxscope.log"@)
        &&& r.to_debugger == read_bool(d, "log"@, "to_debugger"@, true)
        &&& r.max_size_kb == read_unsigned(d, "log"@, "max_size_kb"@, 4096, u32::MAX as nat)
        &&& r.transcript_enabled == read_bool(d, "log"@, "transcript_enabled"@, true)
        &&& r.transcript_path@ == read_string(d, "log"@, "transcript_path"@, "logs/transcript.txt"@)
    }

    /// The lines `store` writes.
    pub open spec fn lines(&self) -> Seq<Line> {
        seq![
            Line::Note("level: trace, debug, info, warn, error, off."@),
            Line::Value("level"@, LogLevelCfg::spec_from_level(self.level).spec_to_config()),
            Line::Note("file_path empty disables the file sink."@),
            Line::Value("file_path"@, self.file_path@),
            Line::Value("to_debugger"@, bool_value_text(self.to_debugger)),
            Line::Value("max_size_kb"@, decimal(self.max_size_kb as nat)),
            Line::Value("transcript_enabled"@, bool_value_text(self.transcript_enabled)),
            Line::Value("transcript_path"@, self.transcript_path@),
        ]
    }

    pub fn load(ini: &Ini) -> (r: Self)
        ensures
            Self::loaded(ini@, &r),
    {
        let d = Self::default();
        let s = "log";
        LogSettings {
            level: ini.get_enum(s, "level", LogLevelCfg::from_level(d.level)).to_level(),
            file_path: ini.get_string(s, "file_path", d.file_path.as_str()),
            to_debugger: ini.get_bool(s, "to_debugger", d.to_debugger),
            max_size_kb: ini.get_u32(s, "max_size_kb", d.max_size_kb),
            transcript_enabled: ini.get_bool(s, "transcript_enabled", d.transcript_enabled),
            transcript_path: ini.get_string(s, "transcript_path", d.transcript_path.as_str()),
        }
    }

    pub fn store(&self, ini: &mut Ini)
        ensures
            final(ini)@ == write_lines(old(ini)@, "log"@, self.lines()),
    {
        let s = "log";
        ini.comment(s, "level: trace, debug, info, warn, error, off.");
        ini.set_enum(s, "level", LogLevelCfg::from_level(self.level));
        ini.comment(s, "file_path empty disables the file sink.");
        ini.set_string(s, "file_path", self.file_path.as_str());
        ini.set_bool(s, "to_debugger", self.to_debugger);
        ini.set_u32(s, "max_size_kb", self.max_size_kb);
        ini.set_bool(s, "transcript_enabled", self.transcript_enabled);
        ini.set_string(s, "transcript_path", self.transcript_path.as_str());
        proof {
            reveal_with_fuel(write_lines, 9);
        }
    }
}

/// Storing the log section and loading it back gives the settings stored.
pub proof fn lemma_log_round_trip(d: Seq<SectionView>, x: LogSettings)
    ensures
        LogSettings::loaded(write_lines(d, "log"@, x.lines()), &x),
{
    let lines = x.lines();
    let s = "log"@;
    assert(keys_plain(lines)) by {
        reveal_with_fuel(keys_plain, 9);
        reveal_with_fuel(plain_text, 20);
        reveal_strlit("level");
        reveal_strlit("file_path");
        reveal_strlit("to_debugger");
        reveal_strlit("max_size_kb");
        reveal_strlit("transcript_enabled");
        reveal_strlit("transcript_path");
    }
    assert(plain_text("level"@) && plain_text("file_path"@) && plain_text("to_debugger"@)
        && plain_text("max_size_kb"@) && plain_text("transcript_enabled"@) && plain_text("transcript_path"@)) by {
        reveal_with_fuel(plain_text, 20);
        reveal_strlit("level");
        reveal_strlit("file_path");
        reveal_strlit("to_debugger");
        reveal_strlit("max_size_kb");
        reveal_strlit("transcript_enabled");
        reveal_strlit("transcript_path");
    }
    assert(last_write(lines, "level"@) == Some(LogLevelCfg::spec_from_level(x.level).spec_to_config())) by {
        reveal_with_fuel(last_write, 9);
        reveal_strlit("level");
        reveal_strlit("file_path");
        reveal_strlit("to_debugger");
        reveal_strlit("max_size_kb");
        reveal_strlit("transcript_enabled");
        reveal_strlit("transcript_path");
    }
    lemma_reads_back(d, s, lines, "level"@);
    assert(last_write(lines, "file_path"@) == Some(x.file_path@)) by {
        reveal_with_fuel(last_write, 9);
        reveal_strlit("level");
        reveal_strlit("file_path");
        reveal_strlit("to_debugger");
        reveal_strlit("max_size_kb");
        reveal_strlit("transcript_enabled");
        reveal_strlit("transcript_path");
    }
    lemma_reads_back(d, s, lines, "file_path"@);
    assert(last_write(lines, "to_debugger"@) == Some(bool_value_text(x.to_debugger))) by {
        reveal_with_fuel(last_write, 9);
        reveal_strlit("level");
        reveal_strlit("file_path");
        reveal_strlit("to_debugger");
        reveal_strlit("max_size_kb");
        reveal_strlit("transcript_enabled");
        reveal_strlit("transcript_path");
    }
    lemma_reads_back(d, s, lines, "to_debugger"@);
    assert(last_write(lines, "max_size_kb"@) == Some(decimal(x.max_size_kb as nat))) by {
        reveal_with_fuel(last_write, 9);
        reveal_strlit("level");
        reveal_strlit("file_path");
        reveal_strlit("to_debugger");
        reveal_strlit("max_size_kb");
        reveal_strlit("transcript_enabled");
        reveal_strlit("transcript_path");
    }
    lemma_reads_back(d, s, lines, "max_size_kb"@);
    assert(last_write(lines, "transcript_enabled"@) == Some(bool_value_text(x.transcript_enabled))) by {
        reveal_with_fuel(last_write, 9);
        reveal_strlit("level");
        reveal_strlit("file_path");
        reveal_strlit("to_debugger");
        reveal_strlit("max_size_kb");
        reveal_strlit("transcript_enabled");
        reveal_strlit("transcript_path");
    }
    lemma_reads_back(d, s, lines, "transcript_enabled"@);
    assert(last_write(lines, "transcript_path"@) == Some(x.transcript_path@)) by {
        reveal_with_fuel(last_write, 9);
        reveal_strlit("level");
        reveal_strlit("file_path");
        reveal_strlit("to_debugger");
        reveal_strlit("max_size_kb");
        reveal_strlit("transcript_enabled");
        reveal_strlit("transcript_path");
    }
    lemma_reads_back(d, s, lines, "transcript_path"@);
    lemma_log_level_cfg_text(LogLevelCfg::spec_from_level(x.level));
    lemma_bool_text(x.to_debugger);
    lemma_bool_text(x.transcript_enabled);
    lemma_decimal_text(x.max_size_kb as nat, u32::MAX as nat);
}

// ------------------------------------------------------------- callsign

#[derive(Debug, Clone)]
pub struct CallsignSettings {
    pub lookup_enabled: bool,
    pub source: CallsignSource,
    /// cty.dat style prefix database for country and zone resolution.
    pub prefix_db_path: String,
    /// Optional flat text or CSV database of known stations.
    pub local_db_path: String,
    pub cache_entries: u32,
    pub auto_lookup_on_decode: bool,
    pub min_callsign_length: u32,
    /// Highlight recognized callsigns in the decode window.
    pub highlight_in_text: bool,
    pub history_path: String,
    pub history_limit: u32,
}

impl Default for CallsignSettings {
    fn default() -> (r: Self)
        ensures
            r.lookup_enabled == true,
            r.source == CallsignSource::Cty,
            r.prefix_db_path@ == "data/cty.dat"@,
            r.local_db_path@ == Seq::<char>::empty(),
            r.cache_entries == 4096,
            r.auto_lookup_on_decode == true,
            r.min_callsign_length == 4,
            r.highlight_in_text == true,
            r.history_path@ == "logs/callsigns.txt"@,
            r.history_limit == 5000,
    {
        CallsignSettings {
            lookup_enabled: true,
            source: CallsignSource::Cty,
            prefix_db_path: "data/cty.dat".to_string(),
            local_db_path: String::new(),
            cache_entries: 4096,
            auto_lookup_on_decode: true,
            min_callsign_length: 4,
            highlight_in_text: true,
            history_path: "logs/callsigns.txt".to_string(),
            history_limit: 5000,
        }
    }
}

impl CallsignSettings {
    /// What `load` reads out of a document.
    pub open spec fn loaded(d: Seq<SectionView>, r: &CallsignSettings) -> bool {
        &&& r.lookup_enabled == read_bool(d, "callsign"@, "lookup_enabled"@, true)
        &&& r.source == read_enum(d, "callsign"@, "source"@, CallsignSource::Cty)
        &&& r.prefix_db_path@ == read_string(d, "callsign"@, "prefix_db_path"@, "data/cty.dat"@)
        &&& r.local_db_path@ == read_string(d, "callsign"@, "local_db_path"@, Seq::<char>::empty())
        &&& r.cache_entries == clamp_or_default(read_unsigned(d, "callsign"@, "cache_entries"@, 4096, u32::MAX as nat), 4096, 64, 1_000_000)
        &&& r.auto_lookup_on_decode == read_bool(d, "callsign"@, "auto_lookup_on_decode"@, true)
        &&& r.min_callsign_length == clamp_or_default(read_unsigned(d, "callsign"@, "min_callsign_length"@, 4, u32::MAX as nat), 4, 3, 12)
        &&& r.highlight_in_text == read_bool(d, "callsign"@, "highlight_in_text"@, true)
        &&& r.history_path@ == read_string(d, "callsign"@, "history_path"@, "logs/callsigns.txt"@)
        &&& r.history_limit == clamp_or_default(read_unsigned(d, "callsign"@, "history_limit"@, 5000, u32::MAX as nat), 5000, 0, 1_000_000)
    }

    /// Values `load` can give: each clamped field inside its range.
    pub open spec fn valid(&self) -> bool {
        &&& 64 <= self.cache_entries <= 1_000_000
        &&& 3 <= self.min_callsign_length <= 12
        &&& 0 <= self.history_limit <= 1_000_000
    }

    /// The lines `store` writes.
    pub open spec fn lines(&self) -> Seq<Line> {
        seq![
            Line::Note("Offline callsign resolution. Online services are not used yet."@),
            Line::Value("lookup_enabled"@, bool_value_text(self.lookup_enabled)),
            Line::Note("source: cty, local_file, none."@),
            Line::Value("source"@, self.source.spec_to_config()),
            Line::Value("prefix_db_path"@, self.prefix_db_path@),
            Line::Value("local_db_path"@, self.local_db_path@),
            Line::Value("cache_entries"@, decimal(self.cache_entries as nat)),
            Line::Value("auto_lookup_on_decode"@, bool_value_text(self.auto_lookup_on_decode)),
            Line::Value("min_callsign_length"@, decimal(self.min_callsign_length as nat)),
            Line::Value("highlight_in_text"@, bool_value_text(self.highlight_in_text)),
            Line::Value("history_path"@, self.history_path@),
            Line::Value("history_limit"@, decimal(self.history_limit as nat)),
        ]
    }

    pub fn load(ini: &Ini) -> (r: Self)
        ensures
            Self::loaded(ini@, &r),
            r.valid(),
    {
        let d = Self::default();
        let s = "callsign";
        CallsignSettings {
            lookup_enabled: ini.get_bool(s, "lookup_enabled", d.lookup_enabled),
            source: ini.get_enum(s, "source", d.source),
            prefix_db_path: ini.get_string(s, "prefix_db_path", d.prefix_db_path.as_str()),
            local_db_path: ini.get_string(s, "local_db_path", d.local_db_path.as_str()),
            cache_entries: ini.get_u32_clamped(s, "cache_entries", d.cache_entries, 64, 1_000_000),
            auto_lookup_on_decode: ini.get_bool(s, "auto_lookup_on_decode", d.auto_lookup_on_decode),
            min_callsign_length: ini.get_u32_clamped(s, "min_callsign_length", d.min_callsign_length, 3, 12),
            highlight_in_text: ini.get_bool(s, "highlight_in_text", d.highlight_in_text),
            history_path: ini.get_string(s, "history_path", d.history_path.as_str()),
            history_limit: ini.get_u32_clamped(s, "history_limit", d.history_limit, 0, 1_000_000),
        }
    }

    pub fn store(&self, ini: &mut Ini)
        ensures
            final(ini)@ == write_lines(old(ini)@, "callsign"@, self.lines()),
    {
        let s = "callsign";
        ini.comment(s, "Offline callsign resolution. Online services are not used yet.");
        ini.set_bool(s, "lookup_enabled", self.lookup_enabled);
        ini.comment(s, "source: cty, local_file, none.");
        ini.set_enum(s, "source", self.source);
        ini.set_string(s, "prefix_db_path", self.prefix_db_path.as_str());
        ini.set_string(s, "local_db_path", self.local_db_path.as_str());
        ini.set_u32(s, "cache_entries", self.cache_entries);
        ini.set_bool(s, "auto_lookup_on_decode", self.auto_lookup_on_decode);
        ini.set_u32(s, "min_callsign_length", self.min_callsign_length);
        ini.set_bool(s, "highlight_in_text", self.highlight_in_text);
        ini.set_string(s, "history_path", self.history_path.as_str());
        ini.set_u32(s, "history_limit", self.history_limit);
        proof {
            reveal_with_fuel(write_lines, 13);
        }
    }
}

/// Storing the callsign section and loading it back gives the settings stored.
#[verifier::spinoff_prover]
#[verifier::rlimit(60)]
pub proof fn lemma_callsign_round_trip(d: Seq<SectionView>, x: CallsignSettings)
    requires
        x.valid(),
    ensures
        CallsignSettings::loaded(write_lines(d, "callsign"@, x.lines()), &x),
{
    let lines = x.lines();
    let s = "callsign"@;
    assert(keys_plain(lines)) by {
        reveal_with_fuel(keys_plain, 13);
        reveal_with_fuel(plain_text, 30);
        reveal_strlit("lookup_enabled");
        reveal_strlit("source");
        reveal_strlit("prefix_db_path");
        reveal_strlit("local_db_path");
        reveal_strlit("cache_entries");
        reveal_strlit("auto_lookup_on_decode");
        reveal_strlit("min_callsign_length");
        reveal_strlit("highlight_in_text");
        reveal_strlit("history_path");
        reveal_strlit("history_limit");
    }
    assert(plain_text("lookup_enabled"@) && plain_text("source"@) && plain_text("prefix_db_path"@) && plain_text("local_db_path"@) && plain_text("cache_entries"@) && plain_text("auto_lookup_on_decode"@) && plain_text("min_callsign_length"@) && plain_text("highlight_in_text"@) && plain_text("history_path"@) && plain_text("history_limit"@)) by {
        reveal_with_fuel(plain_text, 30);
        reveal_strlit("lookup_enabled");
        reveal_strlit("source");
        reveal_strlit("prefix_db_path");
        reveal_strlit("local_db_path");
        reveal_strlit("cache_entries");
        reveal_strlit("auto_lookup_on_decode");
        reveal_strlit("min_callsign_length");
        reveal_strlit("highlight_in_text");
        reveal_strlit("history_path");
        reveal_strlit("history_limit");
    }
    assert(last_write(lines, "lookup_enabled"@) == Some(bool_value_text(x.lookup_enabled))) by {
        reveal_with_fuel(last_write, 13);
        reveal_strlit("lookup_enabled");
        reveal_strlit("source");
        reveal_strlit("prefix_db_path");
        reveal_strlit("local_db_path");
        reveal_strlit("cache_entries");
        reveal_strlit("auto_lookup_on_decode");
        reveal_strlit("min_callsign_length");
        reveal_strlit("highlight_in_text");
        reveal_strlit("history_path");
        reveal_strlit("history_limit");
    }
    lemma_reads_back(d, s, lines, "lookup_enabled"@);
    assert(last_write(lines, "source"@) == Some(x.source.spec_to_config())) by {
        reveal_with_fuel(last_write, 13);
        reveal_strlit("lookup_enabled");
        reveal_strlit("source");
        reveal_strlit("prefix_db_path");
        reveal_strlit("local_db_path");
        reveal_strlit("cache_entries");
        reveal_strlit("auto_lookup_on_decode");
        reveal_strlit("min_callsign_length");
        reveal_strlit("highlight_in_text");
        reveal_strlit("history_path");
        reveal_strlit("history_limit");
    }
    lemma_reads_back(d, s, lines, "source"@);
    assert(last_write(lines, "prefix_db_path"@) == Some(x.prefix_db_path@)) by {
        reveal_with_fuel(last_write, 13);
        reveal_strlit("lookup_enabled");
        reveal_strlit("source");
        reveal_strlit("prefix_db_path");
        reveal_strlit("local_db_path");
        reveal_strlit("cache_entries");
        reveal_strlit("auto_lookup_on_decode");
        reveal_strlit("min_callsign_length");
        reveal_strlit("highlight_in_text");
        reveal_strlit("history_path");
        reveal_strlit("history_limit");
    }
    lemma_reads_back(d, s, lines, "prefix_db_path"@);
    assert(last_write(lines, "local_db_path"@) == Some(x.local_db_path@)) by {
        reveal_with_fuel(last_write, 13);
        reveal_strlit("lookup_enabled");
        reveal_strlit("source");
        reveal_strlit("prefix_db_path");
        reveal_strlit("local_db_path");
        reveal_strlit("cache_entries");
        reveal_strlit("auto_lookup_on_decode");
        reveal_strlit("min_callsign_length");
        reveal_strlit("highlight_in_text");
        reveal_strlit("history_path");
        reveal_strlit("history_limit");
    }
    lemma_reads_back(d, s, lines, "local_db_path"@);
    assert(last_write(lines, "cache_entries"@) == Some(decimal(x.cache_entries as nat))) by {
        reveal_with_fuel(last_write, 13);
        reveal_strlit("lookup_enabled");
        reveal_strlit("source");
        reveal_strlit("prefix_db_path");
        reveal_strlit("local_db_path");
        reveal_strlit("cache_entries");
        reveal_strlit("auto_lookup_on_decode");
        reveal_strlit("min_callsign_length");
        reveal_strlit("highlight_in_text");
        reveal_strlit("history_path");
        reveal_strlit("history_limit");
    }
    lemma_reads_back(d, s, lines, "cache_entries"@);
    assert(last_write(lines, "auto_lookup_on_decode"@) == Some(bool_value_text(x.auto_lookup_on_decode))) by {
        reveal_with_fuel(last_write, 13);
        reveal_strlit("lookup_enabled");
        reveal_strlit("source");
        reveal_strlit("prefix_db_path");
        reveal_strlit("local_db_path");
        reveal_strlit("cache_entries");
        reveal_strlit("auto_lookup_on_decode");
        reveal_strlit("min_callsign_length");
        reveal_strlit("highlight_in_text");
        reveal_strlit("history_path");
        reveal_strlit("history_limit");
    }
    lemma_reads_back(d, s, lines, "auto_lookup_on_decode"@);
    assert(last_write(lines, "min_callsign_length"@) == Some(decimal(x.min_callsign_length as nat))) by {
        reveal_with_fuel(last_write, 13);
        reveal_strlit("lookup_enabled");
        reveal_strlit("source");
        reveal_strlit("prefix_db_path");
        reveal_strlit("local_db_path");
        reveal_strlit("cache_entries");
        reveal_strlit("auto_lookup_on_decode");
        reveal_strlit("min_callsign_length");
        reveal_strlit("highlight_in_text");
        reveal_strlit("history_path");
        reveal_strlit("history_limit");
    }
    lemma_reads_back(d, s, lines, "min_callsign_length"@);
    assert(last_write(lines, "highlight_in_text"@) == Some(bool_value_text(x.highlight_in_text))) by {
        reveal_with_fuel(last_write, 13);
        reveal_strlit("lookup_enabled");
        reveal_strlit("source");
        reveal_strlit("prefix_db_path");
        reveal_strlit("local_db_path");
        reveal_strlit("cache_entries");
        reveal_strlit("auto_lookup_on_decode");
        reveal_strlit("min_callsign_length");
        reveal_strlit("highlight_in_text");
        reveal_strlit("history_path");
        reveal_strlit("history_limit");
    }
    lemma_reads_back(d, s, lines, "highlight_in_text"@);
    assert(last_write(lines, "history_path"@) == Some(x.history_path@)) by {
        reveal_with_fuel(last_write, 13);
        reveal_strlit("lookup_enabled");
        reveal_strlit("source");
        reveal_strlit("prefix_db_path");
        reveal_strlit("local_db_path");
        reveal_strlit("cache_entries");
        reveal_strlit("auto_lookup_on_decode");
        reveal_strlit("min_callsign_length");
        reveal_strlit("highlight_in_text");
        reveal_strlit("history_path");
        reveal_strlit("history_limit");
    }
    lemma_reads_back(d, s, lines, "history_path"@);
    assert(last_write(lines, "history_limit"@) == Some(decimal(x.history_limit as nat))) by {
        reveal_with_fuel(last_write, 13);
        reveal_strlit("lookup_enabled");
        reveal_strlit("source");
        reveal_strlit("prefix_db_path");
        reveal_strlit("local_db_path");
        reveal_strlit("cache_entries");
        reveal_strlit("auto_lookup_on_decode");
        reveal_strlit("min_callsign_length");
        reveal_strlit("highlight_in_text");
        reveal_strlit("history_path");
        reveal_strlit("history_limit");
    }
    lemma_reads_back(d, s, lines, "history_limit"@);
    lemma_bool_text(x.lookup_enabled);
    lemma_callsign_source_text(x.source);
    lemma_decimal_text(x.cache_entries as nat, u32::MAX as nat);
    lemma_bool_text(x.auto_lookup_on_decode);
    lemma_decimal_text(x.min_callsign_length as nat, u32::MAX as nat);
    lemma_bool_text(x.highlight_in_text);
    lemma_decimal_text(x.history_limit as nat, u32::MAX as nat);
}


// ------------------------------------------------------------- colours

/// The text after every leading `#`.
pub open spec fn strip_hashes(s: Seq<char>) -> Seq<char>
    decreases s.len(),
{
    if s.len() > 0 && s[0] == '#' {
        strip_hashes(s.drop_first())
    } else {
        s
    }
}

/// The text after every leading `0x`.
pub open spec fn strip_hex_prefix(s: Seq<char>) -> Seq<char>
    decreases s.len(),
{
    if s.len() >= 2 && s[0] == '0' && s[1] == 'x' {
        strip_hex_prefix(s.subrange(2, s.len() as int))
    } else {
        s
    }
}

/// The colour a `RRGGBB` text names: trimmed, with any leading `#` and `0x`
/// removed, read as hexadecimal into 32 bits and cut to the low 24 bits.
pub open spec fn rgb_text(t: Seq<char>) -> Option<u32> {
    match parse_hex(strip_hex_prefix(strip_hashes(trim(t))), u32::MAX as nat) {
        Some(v) => Some((v % 0x100_0000) as u32),
        None => None,
    }
}

/// Reads a colour written as hexadecimal `RRGGBB`, optionally after `#` or
/// `0x`. Bits above the low 24 are dropped.
pub fn parse_rgb(text: &str) -> (r: Option<u32>)
    ensures
        r == rgb_text(text@),
{
    let c = chars_of(text);
    let t = trim_chars(c.as_slice());
    let mut i: usize = 0;
    assert(t@.skip(0) =~= t@);
    while i < t.len() && t[i] == '#'
        invariant
            i <= t@.len(),
            strip_hashes(t@) == strip_hashes(t@.skip(i as int)),
        decreases t@.len() - i,
    {
        assert(t@.skip(i as int).drop_first() =~= t@.skip(i + 1));
        i += 1;
    }
    assert(i < t@.len() ==> t@.skip(i as int)[0] == t@[i as int]);
    assert(strip_hashes(t@.skip(i as int)) == t@.skip(i as int));
    while i < t.len() && t[i] == '0' && i + 1 < t.len() && t[i + 1] == 'x'
        invariant
            i <= t@.len(),
            strip_hex_prefix(strip_hashes(t@)) == strip_hex_prefix(t@.skip(i as int)),
        decreases t@.len() - i,
    {
        assert(t@.skip(i as int).subrange(2, t@.skip(i as int).len() as int) =~= t@.skip(i + 2));
        i += 2;
    }
    assert(!(t@.skip(i as int).len() >= 2 && t@.skip(i as int)[0] == '0' && t@.skip(i as int)[1] == 'x'));
    let rest = copy_range(t.as_slice(), i, t.len());
    assert(rest@ =~= t@.skip(i as int));
    match parse_hex_chars(rest.as_slice(), 0xFFFF_FFFF) {
        Some(v) => Some((v % 0x100_0000) as u32),
        None => None,
    }
}

/// The text a colour is written as reads back as that colour.
pub proof fn lemma_rgb_text(v: u32)
    requires
        v <= 0xFF_FFFF,
    ensures
        rgb_text(pad_zeros(hex_upper(v as nat), 6)) == Some(v),
{
    let p = pad_zeros(hex_upper(v as nat), 6);
    lemma_parse_hex_padded(v as nat, 6, u32::MAX as nat);
    assert forall|i: int| 0 <= i < p.len() implies !is_ws(#[trigger] p[i]) by {}
    lemma_trim_no_ws(p);
    assert(strip_hashes(p) == p);
    assert(strip_hex_prefix(p) == p);
}

// --------------------------------------------------------------- render

#[derive(Debug, Clone)]
pub struct RenderSettings {
    pub validation: bool,
    /// Substring match against the GPU name, empty means automatic choice.
    pub device_name: String,
    /// Explicit index from the enumeration order, -1 means automatic.
    pub device_index: i32,
    pub frames_in_flight: u32,
    /// 0 lets the driver minimum plus one decide.
    pub swapchain_images: u32,
    pub present_mode: PresentModeCfg,
    /// Window background as 0xRRGGBB.
    pub background_rgb: u32,
    pub vertex_buffer_kb: u32,
    pub index_buffer_kb: u32,
    pub max_textures: u32,
    pub log_device_info: bool,
    /// Measure the device side frame time with timestamp queries.
    ///
    /// Two commands per frame and a query pool of two entries per frame slot,
    /// which is negligible beside a few dozen draw commands. Present as a switch
    /// because a timestamp query is one of the few paths where implementations
    /// have differed, and because the reading is diagnostic rather than
    /// operational.
    pub gpu_timing: bool,
}

impl Default for RenderSettings {
    fn default() -> (r: Self)
        ensures
            r.validation == false,
            r.device_name@ == Seq::<char>::empty(),
            r.device_index == -1,
            r.frames_in_flight == 2,
            r.swapchain_images == 0,
            r.present_mode == PresentModeCfg::Auto,
            r.background_rgb == 0x1E1E1E,
            r.vertex_buffer_kb == 512,
            r.index_buffer_kb == 256,
            r.max_textures == 64,
            r.log_device_info == true,
            r.gpu_timing == true,
    {
        RenderSettings {
            validation: false,
            device_name: String::new(),
            device_index: -1,
            frames_in_flight: 2,
            swapchain_images: 0,
            present_mode: PresentModeCfg::Auto,
            background_rgb: 0x1E1E1E,
            vertex_buffer_kb: 512,
            index_buffer_kb: 256,
            max_textures: 64,
            log_device_info: true,
            gpu_timing: true,
        }
    }
}

impl RenderSettings {
    /// What `load` reads out of a document.
    pub open spec fn loaded(d: Seq<SectionView>, r: &RenderSettings) -> bool {
        &&& r.validation == read_bool(d, "render"@, "validation"@, false)
        &&& r.device_name@ == read_string(d, "render"@, "device_name"@, Seq::<char>::empty())
        &&& r.device_index == read_signed(d, "render"@, "device_index"@, -1, i32::MIN as int, i32::MAX as int)
        &&& r.frames_in_flight == clamp_or_default(read_unsigned(d, "render"@, "frames_in_flight"@, 2, u32::MAX as nat), 2, 1, 4)
        &&& r.swapchain_images == clamp_or_default(read_unsigned(d, "render"@, "swapchain_images"@, 0, u32::MAX as nat), 0, 0, 8)
        &&& r.present_mode == read_enum(d, "render"@, "present_mode"@, PresentModeCfg::Auto)
        &&& r.background_rgb == match rgb_text(read_string(d, "render"@, "background_rgb"@, "1E1E1E"@)) {
            Some(v) => v,
            None => 0x1E1E1E,
        }
        &&& r.vertex_buffer_kb == clamp_or_default(read_unsigned(d, "render"@, "vertex_buffer_kb"@, 512, u32::MAX as nat), 512, 64, 65536)
        &&& r.index_buffer_kb == clamp_or_default(read_unsigned(d, "render"@, "index_buffer_kb"@, 256, u32::MAX as nat), 256, 32, 65536)
        &&& r.max_textures == clamp_or_default(read_unsigned(d, "render"@, "max_textures"@, 64, u32::MAX as nat), 64, 4, 1024)
        &&& r.log_device_info == read_bool(d, "render"@, "log_device_info"@, true)
        &&& r.gpu_timing == read_bool(d, "render"@, "gpu_timing"@, true)
    }

    /// Values `load` can give: each clamped field inside its range.
    pub open spec fn valid(&self) -> bool {
        &&& 1 <= self.frames_in_flight <= 4
        &&& 0 <= self.swapchain_images <= 8
        &&& self.background_rgb <= 0xFF_FFFF
        &&& 64 <= self.vertex_buffer_kb <= 65536
        &&& 32 <= self.index_buffer_kb <= 65536
        &&& 4 <= self.max_textures <= 1024
    }

    /// The lines `store` writes.
    pub open spec fn lines(&self) -> Seq<Line> {
        seq![
            Line::Note("validation requires the Vulkan SDK layers, it is off in release."@),
            Line::Value("validation"@, bool_value_text(self.validation)),
            Line::Note("device_name matches a substring of the GPU name, device_index is"@),
            Line::Note("the enumeration position. Both empty or -1 means automatic."@),
            Line::Value("device_name"@, self.device_name@),
            Line::Value("device_index"@, signed_decimal(self.device_index as int)),
            Line::Value("frames_in_flight"@, decimal(self.frames_in_flight as nat)),
            Line::Value("swapchain_images"@, decimal(self.swapchain_images as nat)),
            Line::Note("present_mode: auto, fifo, fifo_relaxed, mailbox, immediate."@),
            Line::Note("auto follows ui.vsync."@),
            Line::Value("present_mode"@, self.present_mode.spec_to_config()),
            Line::Value("background_rgb"@, pad_zeros(hex_upper(self.background_rgb as nat), 6)),
            Line::Note("Initial geometry buffer sizes, they grow automatically."@),
            Line::Value("vertex_buffer_kb"@, decimal(self.vertex_buffer_kb as nat)),
            Line::Value("index_buffer_kb"@, decimal(self.index_buffer_kb as nat)),
            Line::Value("max_textures"@, decimal(self.max_textures as nat)),
            Line::Value("log_device_info"@, bool_value_text(self.log_device_info)),
            Line::Note("gpu_timing measures the device side frame time and feeds it to the"@),
            Line::Note("debug overlay, which otherwise reports the processor side only. Off on"@),
            Line::Note("a device whose queue reports no timestamp bits, whatever this says."@),
            Line::Value("gpu_timing"@, bool_value_text(self.gpu_timing)),
        ]
    }

    pub fn load(ini: &Ini) -> (r: Self)
        ensures
            Self::loaded(ini@, &r),
            r.valid(),
    {
        let d = Self::default();
        let s = "render";
        let text = ini.get_string(s, "background_rgb", "1E1E1E");
        let background_rgb = match parse_rgb(text.as_str()) {
            Some(v) => v,
            None => d.background_rgb,
        };
        RenderSettings {
            validation: ini.get_bool(s, "validation", d.validation),
            device_name: ini.get_string(s, "device_name", d.device_name.as_str()),
            device_index: ini.get_i32(s, "device_index", d.device_index),
            frames_in_flight: ini.get_u32_clamped(s, "frames_in_flight", d.frames_in_flight, 1, 4),
            swapchain_images: ini.get_u32_clamped(s, "swapchain_images", d.swapchain_images, 0, 8),
            present_mode: ini.get_enum(s, "present_mode", d.present_mode),
            background_rgb,
            vertex_buffer_kb: ini.get_u32_clamped(s, "vertex_buffer_kb", d.vertex_buffer_kb, 64, 65536),
            index_buffer_kb: ini.get_u32_clamped(s, "index_buffer_kb", d.index_buffer_kb, 32, 65536),
            max_textures: ini.get_u32_clamped(s, "max_textures", d.max_textures, 4, 1024),
            log_device_info: ini.get_bool(s, "log_device_info", d.log_device_info),
            gpu_timing: ini.get_bool(s, "gpu_timing", d.gpu_timing),
        }
    }

    pub fn store(&self, ini: &mut Ini)
        ensures
            final(ini)@ == write_lines(old(ini)@, "render"@, self.lines()),
    {
        let s = "render";
        ini.comment(s, "validation requires the Vulkan SDK layers, it is off in release.");
        ini.set_bool(s, "validation", self.validation);
        ini.comment(s, "device_name matches a substring of the GPU name, device_index is");
        ini.comment(s, "the enumeration position. Both empty or -1 means automatic.");
        ini.set_string(s, "device_name", self.device_name.as_str());
        ini.set_i32(s, "device_index", self.device_index);
        ini.set_u32(s, "frames_in_flight", self.frames_in_flight);
        ini.set_u32(s, "swapchain_images", self.swapchain_images);
        ini.comment(s, "present_mode: auto, fifo, fifo_relaxed, mailbox, immediate.");
        ini.comment(s, "auto follows ui.vsync.");
        ini.set_enum(s, "present_mode", self.present_mode);
        let text = format_hex_padded(self.background_rgb as u64, 6);
        ini.set_string(s, "background_rgb", text.as_str());
        ini.comment(s, "Initial geometry buffer sizes, they grow automatically.");
        ini.set_u32(s, "vertex_buffer_kb", self.vertex_buffer_kb);
        ini.set_u32(s, "index_buffer_kb", self.index_buffer_kb);
        ini.set_u32(s, "max_textures", self.max_textures);
        ini.set_bool(s, "log_device_info", self.log_device_info);
        ini.comment(s, "gpu_timing measures the device side frame time and feeds it to the");
        ini.comment(s, "debug overlay, which otherwise reports the processor side only. Off on");
        ini.comment(s, "a device whose queue reports no timestamp bits, whatever this says.");
        ini.set_bool(s, "gpu_timing", self.gpu_timing);
        proof {
            reveal_with_fuel(write_lines, 22);
        }
    }
}

/// Storing the render section and loading it back gives the settings stored.
#[verifier::spinoff_prover]
#[verifier::rlimit(80)]
pub proof fn lemma_render_round_trip(d: Seq<SectionView>, x: RenderSettings)
    requires
        x.valid(),
    ensures
        RenderSettings::loaded(write_lines(d, "render"@, x.lines()), &x),
{
    let lines = x.lines();
    let s = "render"@;
    assert(keys_plain(lines)) by {
        reveal_with_fuel(keys_plain, 22);
        reveal_with_fuel(plain_text, 30);
        reveal_strlit("validation");
        reveal_strlit("device_name");
        reveal_strlit("device_index");
        reveal_strlit("frames_in_flight");
        reveal_strlit("swapchain_images");
        reveal_strlit("present_mode");
        reveal_strlit("background_rgb");
        reveal_strlit("vertex_buffer_kb");
        reveal_strlit("index_buffer_kb");
        reveal_strlit("max_textures");
        reveal_strlit("log_device_info");
        reveal_strlit("gpu_timing");
    }
    assert(plain_text("validation"@) && plain_text("device_name"@) && plain_text("device_index"@) && plain_text("frames_in_flight"@) && plain_text("swapchain_images"@) && plain_text("present_mode"@) && plain_text("background_rgb"@) && plain_text("vertex_buffer_kb"@) && plain_text("index_buffer_kb"@) && plain_text("max_textures"@) && plain_text("log_device_info"@) && plain_text("gpu_timing"@)) by {
        reveal_with_fuel(plain_text, 30);
        reveal_strlit("validation");
        reveal_strlit("device_name");
        reveal_strlit("device_index");
        reveal_strlit("frames_in_flight");
        reveal_strlit("swapchain_images");
        reveal_strlit("present_mode");
        reveal_strlit("background_rgb");
        reveal_strlit("vertex_buffer_kb");
        reveal_strlit("index_buffer_kb");
        reveal_strlit("max_textures");
        reveal_strlit("log_device_info");
        reveal_strlit("gpu_timing");
    }
    assert(last_write(lines, "validation"@) == Some(bool_value_text(x.validation))) by {
        reveal_with_fuel(last_write, 22);
        reveal_strlit("validation");
        reveal_strlit("device_name");
        reveal_strlit("device_index");
        reveal_strlit("frames_in_flight");
        reveal_strlit("swapchain_images");
        reveal_strlit("present_mode");
        reveal_strlit("background_rgb");
        reveal_strlit("vertex_buffer_kb");
        reveal_strlit("index_buffer_kb");
        reveal_strlit("max_textures");
        reveal_strlit("log_device_info");
        reveal_strlit("gpu_timing");
    }
    lemma_reads_back(d, s, lines, "validation"@);
    assert(last_write(lines, "device_name"@) == Some(x.device_name@)) by {
        reveal_with_fuel(last_write, 22);
        reveal_strlit("validation");
        reveal_strlit("device_name");
        reveal_strlit("device_index");
        reveal_strlit("frames_in_flight");
        reveal_strlit("swapchain_images");
        reveal_strlit("present_mode");
        reveal_strlit("background_rgb");
        reveal_strlit("vertex_buffer_kb");
        reveal_strlit("index_buffer_kb");
        reveal_strlit("max_textures");
        reveal_strlit("log_device_info");
        reveal_strlit("gpu_timing");
    }
    lemma_reads_back(d, s, lines, "device_name"@);
    assert(last_write(lines, "device_index"@) == Some(signed_decimal(x.device_index as int))) by {
        reveal_with_fuel(last_write, 22);
        reveal_strlit("validation");
        reveal_strlit("device_name");
        reveal_strlit("device_index");
        reveal_strlit("frames_in_flight");
        reveal_strlit("swapchain_images");
        reveal_strlit("present_mode");
        reveal_strlit("background_rgb");
        reveal_strlit("vertex_buffer_kb");
        reveal_strlit("index_buffer_kb");
        reveal_strlit("max_textures");
        reveal_strlit("log_device_info");
        reveal_strlit("gpu_timing");
    }
    lemma_reads_back(d, s, lines, "device_index"@);
    assert(last_write(lines, "frames_in_flight"@) == Some(decimal(x.frames_in_flight as nat))) by {
        reveal_with_fuel(last_write, 22);
        reveal_strlit("validation");
        reveal_strlit("device_name");
        reveal_strlit("device_index");
        reveal_strlit("frames_in_flight");
        reveal_strlit("swapchain_images");
        reveal_strlit("present_mode");
        reveal_strlit("background_rgb");
        reveal_strlit("vertex_buffer_kb");
        reveal_strlit("index_buffer_kb");
        reveal_strlit("max_textures");
        reveal_strlit("log_device_info");
        reveal_strlit("gpu_timing");
    }
    lemma_reads_back(d, s, lines, "frames_in_flight"@);
    assert(last_write(lines, "swapchain_images"@) == Some(decimal(x.swapchain_images as nat))) by {
        reveal_with_fuel(last_write, 22);
        reveal_strlit("validation");
        reveal_strlit("device_name");
        reveal_strlit("device_index");
        reveal_strlit("frames_in_flight");
        reveal_strlit("swapchain_images");
        reveal_strlit("present_mode");
        reveal_strlit("background_rgb");
        reveal_strlit("vertex_buffer_kb");
        reveal_strlit("index_buffer_kb");
        reveal_strlit("max_textures");
        reveal_strlit("log_device_info");
        reveal_strlit("gpu_timing");
    }
    lemma_reads_back(d, s, lines, "swapchain_images"@);
    assert(last_write(lines, "present_mode"@) == Some(x.present_mode.spec_to_config())) by {
        reveal_with_fuel(last_write, 22);
        reveal_strlit("validation");
        reveal_strlit("device_name");
        reveal_strlit("device_index");
        reveal_strlit("frames_in_flight");
        reveal_strlit("swapchain_images");
        reveal_strlit("present_mode");
        reveal_strlit("background_rgb");
        reveal_strlit("vertex_buffer_kb");
        reveal_strlit("index_buffer_kb");
        reveal_strlit("max_textures");
        reveal_strlit("log_device_info");
        reveal_strlit("gpu_timing");
    }
    lemma_reads_back(d, s, lines, "present_mode"@);
    assert(last_write(lines, "background_rgb"@) == Some(pad_zeros(hex_upper(x.background_rgb as nat), 6))) by {
        reveal_with_fuel(last_write, 22);
        reveal_strlit("validation");
        reveal_strlit("device_name");
        reveal_strlit("device_index");
        reveal_strlit("frames_in_flight");
        reveal_strlit("swapchain_images");
        reveal_strlit("present_mode");
        reveal_strlit("background_rgb");
        reveal_strlit("vertex_buffer_kb");
        reveal_strlit("index_buffer_kb");
        reveal_strlit("max_textures");
        reveal_strlit("log_device_info");
        reveal_strlit("gpu_timing");
    }
    lemma_reads_back(d, s, lines, "background_rgb"@);
    assert(last_write(lines, "vertex_buffer_kb"@) == Some(decimal(x.vertex_buffer_kb as nat))) by {
        reveal_with_fuel(last_write, 22);
        reveal_strlit("validation");
        reveal_strlit("device_name");
        reveal_strlit("device_index");
        reveal_strlit("frames_in_flight");
        reveal_strlit("swapchain_images");
        reveal_strlit("present_mode");
        reveal_strlit("background_rgb");
        reveal_strlit("vertex_buffer_kb");
        reveal_strlit("index_buffer_kb");
        reveal_strlit("max_textures");
        reveal_strlit("log_device_info");
        reveal_strlit("gpu_timing");
    }
    lemma_reads_back(d, s, lines, "vertex_buffer_kb"@);
    assert(last_write(lines, "index_buffer_kb"@) == Some(decimal(x.index_buffer_kb as nat))) by {
        reveal_with_fuel(last_write, 22);
        reveal_strlit("validation");
        reveal_strlit("device_name");
        reveal_strlit("device_index");
        reveal_strlit("frames_in_flight");
        reveal_strlit("swapchain_images");
        reveal_strlit("present_mode");
        reveal_strlit("background_rgb");
        reveal_strlit("vertex_buffer_kb");
        reveal_strlit("index_buffer_kb");
        reveal_strlit("max_textures");
        reveal_strlit("log_device_info");
        reveal_strlit("gpu_timing");
    }
    lemma_reads_back(d, s, lines, "index_buffer_kb"@);
    assert(last_write(lines, "max_textures"@) == Some(decimal(x.max_textures as nat))) by {
        reveal_with_fuel(last_write, 22);
        reveal_strlit("validation");
        reveal_strlit("device_name");
        reveal_strlit("device_index");
        reveal_strlit("frames_in_flight");
        reveal_strlit("swapchain_images");
        reveal_strlit("present_mode");
        reveal_strlit("background_rgb");
        reveal_strlit("vertex_buffer_kb");
        reveal_strlit("index_buffer_kb");
        reveal_strlit("max_textures");
        reveal_strlit("log_device_info");
        reveal_strlit("gpu_timing");
    }
    lemma_reads_back(d, s, lines, "max_textures"@);
    assert(last_write(lines, "log_device_info"@) == Some(bool_value_text(x.log_device_info))) by {
        reveal_with_fuel(last_write, 22);
        reveal_strlit("validation");
        reveal_strlit("device_name");
        reveal_strlit("device_index");
        reveal_strlit("frames_in_flight");
        reveal_strlit("swapchain_images");
        reveal_strlit("present_mode");
        reveal_strlit("background_rgb");
        reveal_strlit("vertex_buffer_kb");
        reveal_strlit("index_buffer_kb");
        reveal_strlit("max_textures");
        reveal_strlit("log_device_info");
        reveal_strlit("gpu_timing");
    }
    lemma_reads_back(d, s, lines, "log_device_info"@);
    assert(last_write(lines, "gpu_timing"@) == Some(bool_value_text(x.gpu_timing))) by {
        reveal_with_fuel(last_write, 22);
        reveal_strlit("validation");
        reveal_strlit("device_name");
        reveal_strlit("device_index");
        reveal_strlit("frames_in_flight");
        reveal_strlit("swapchain_images");
        reveal_strlit("present_mode");
        reveal_strlit("background_rgb");
        reveal_strlit("vertex_buffer_kb");
        reveal_strlit("index_buffer_kb");
        reveal_strlit("max_textures");
        reveal_strlit("log_device_info");
        reveal_strlit("gpu_timing");
    }
    lemma_reads_back(d, s, lines, "gpu_timing"@);
    lemma_bool_text(x.validation);
    lemma_signed_text(x.device_index as int, i32::MIN as int, i32::MAX as int);
    lemma_decimal_text(x.frames_in_flight as nat, u32::MAX as nat);
    lemma_decimal_text(x.swapchain_images as nat, u32::MAX as nat);
    lemma_present_mode_cfg_text(x.present_mode);
    lemma_rgb_text(x.background_rgb);
    lemma_decimal_text(x.vertex_buffer_kb as nat, u32::MAX as nat);
    lemma_decimal_text(x.index_buffer_kb as nat, u32::MAX as nat);
    lemma_decimal_text(x.max_textures as nat, u32::MAX as nat);
    lemma_bool_text(x.log_device_info);
    lemma_bool_text(x.gpu_timing);
}


// ---------------------------------------------------------------- bands

/// Where the operator last was on a band: the band name as the plan states
/// it, the frequency and the detector.
pub type BandView = (Seq<char>, i64, Detector);

/// Where the operator last was on each band.
///
/// A band stack, which every transceiver front panel and every logging program
/// has, and which an operator reaches for without thinking: press the band and
/// be back where you left it, in the mode you were using. Without one a band
/// change is a frequency to remember and a mode to reselect, and the operator
/// remembers neither after the third band.
///
/// The mode is part of the entry rather than left alone. An operator works one
/// band in keying and the next in voice, and a stack that restored the frequency
/// and not the mode would put them on the right frequency listening through the
/// wrong filter.
#[derive(Debug, Clone)]
pub struct BandSettings {
    pub entries: Vec<BandEntry>,
}

#[derive(Debug, Clone)]
pub struct BandEntry {
    /// Band name as the plan states it, which is what a button carries.
    pub band: String,
    pub hz: i64,
    pub detector: Detector,
}

impl View for BandEntry {
    type V = BandView;

    open spec fn view(&self) -> BandView {
        (self.band@, self.hz, self.detector)
    }
}

impl View for BandSettings {
    type V = Seq<BandView>;

    open spec fn view(&self) -> Seq<BandView> {
        self.entries@.map_values(|e: BandEntry| e@)
    }
}

impl Default for BandSettings {
    fn default() -> (r: Self)
        ensures
            r@ == Seq::<BandView>::empty(),
    {
        let r = BandSettings { entries: Vec::new() };
        assert(r@ =~= Seq::<BandView>::empty());
        r
    }
}

/// Position of the first entry for a band, the name compared ignoring ASCII
/// case, or -1.
pub open spec fn band_index(v: Seq<BandView>, band: Seq<char>) -> int
    decreases v.len(),
{
    if v.len() == 0 {
        -1
    } else if eq_ic(v[0].0, band) {
        0
    } else {
        let r = band_index(v.drop_first(), band);
        if r < 0 {
            -1
        } else {
            r + 1
        }
    }
}

pub proof fn lemma_band_index(v: Seq<BandView>, band: Seq<char>)
    ensures
        -1 <= band_index(v, band) < v.len(),
        band_index(v, band) >= 0 ==> eq_ic(v[band_index(v, band)].0, band),
        forall|j: int|
            0 <= j < v.len() && (band_index(v, band) < 0 || j < band_index(v, band)) ==> !eq_ic(
                #[trigger] v[j].0,
                band,
            ),
    decreases v.len(),
{
    if v.len() > 0 && !eq_ic(v[0].0, band) {
        let rest = v.drop_first();
        lemma_band_index(rest, band);
        assert forall|j: int|
            0 <= j < v.len() && (band_index(v, band) < 0 || j < band_index(v, band)) implies !eq_ic(
            #[trigger] v[j].0,
            band,
        ) by {
            if j > 0 {
                assert(v[j] == rest[j - 1]);
            }
        }
    }
}

/// The stack after `remember`: a frequency that is not positive or an empty
/// band name changes nothing; otherwise the band's entry takes the frequency
/// and the detector, or a new entry is appended.
pub open spec fn remembered(v: Seq<BandView>, band: Seq<char>, hz: i64, detector: Detector) -> Seq<BandView> {
    if hz <= 0 || band.len() == 0 {
        v
    } else {
        let i = band_index(v, band);
        if i >= 0 {
            v.update(i, (v[i].0, hz, detector))
        } else {
            v.push((band, hz, detector))
        }
    }
}

/// The text an entry is written as in the stack: band, frequency and mode
/// separated by colons.
pub open spec fn entry_text(e: BandView) -> Seq<char> {
    e.0 + seq![':'] + signed_decimal(e.1 as int) + seq![':'] + e.2.spec_to_config()
}

/// A piece of a split text, or nothing past the last one.
pub open spec fn piece(parts: Seq<Seq<char>>, i: int) -> Seq<char> {
    if 0 <= i < parts.len() {
        parts[i]
    } else {
        Seq::empty()
    }
}

/// The entry a stack item names, or None when its band is empty or its
/// frequency not a positive number. A missing or unknown mode is the upper
/// sideband.
pub open spec fn stack_entry(item: Seq<char>) -> Option<BandView> {
    let parts = split(item, ':');
    let band = trim(piece(parts, 0));
    let hz = match parse_signed(trim(piece(parts, 1)), i64::MIN as int, i64::MAX as int) {
        Some(v) => v,
        None => 0,
    };
    let detector = match Detector::spec_from_config(lower_seq(trim(piece(parts, 2)))) {
        Some(d) => d,
        None => Detector::Usb,
    };
    if band.len() == 0 || hz <= 0 {
        None
    } else {
        Some((band, hz as i64, detector))
    }
}

/// The entries a list of stack items names, in order, skipping the items that
/// name none.
pub open spec fn load_stack(items: Seq<Seq<char>>) -> Seq<BandView>
    decreases items.len(),
{
    if items.len() == 0 {
        Seq::empty()
    } else {
        let rest = load_stack(items.drop_last());
        match stack_entry(items.last()) {
            Some(e) => rest.push(e),
            None => rest,
        }
    }
}

/// Whether characters name a band, compared ignoring ASCII case.
fn same_band(stored: &String, wanted: &[char]) -> (r: bool)
    ensures
        r == eq_ic(stored@, wanted@),
{
    let v = chars_of(stored.as_str());
    eq_ignore_case(v.as_slice(), wanted)
}

impl BandSettings {
    /// Position of the entry for a band, see `band_index`.
    fn position(&self, band: &[char]) -> (r: Option<usize>)
        ensures
            band_index(self@, band@) < 0 ==> r is None,
            band_index(self@, band@) >= 0 ==> r is Some && r->0 == band_index(self@, band@),
    {
        proof {
            lemma_band_index(self@, band@);
        }
        let mut i: usize = 0;
        while i < self.entries.len()
            invariant
                i <= self@.len(),
                self@.len() == self.entries@.len(),
                forall|j: int| 0 <= j < i ==> !eq_ic(#[trigger] self@[j].0, band@),
            decreases self.entries@.len() - i,
        {
            assert(self@[i as int] == self.entries@[i as int]@);
            if same_band(&self.entries[i].band, band) {
                assert(eq_ic(self@[i as int].0, band@));
                proof {
                    lemma_band_index(self@, band@);
                }
                assert(band_index(self@, band@) == i);
                return Some(i);
            }
            i += 1;
        }
        proof {
            lemma_band_index(self@, band@);
        }
        None
    }

    /// The entry for a band, the name compared ignoring ASCII case.
    pub fn find(&self, band: &str) -> (r: Option<&BandEntry>)
        ensures
            band_index(self@, band@) < 0 ==> r is None,
            band_index(self@, band@) >= 0 ==> r == Some(&self.entries@[band_index(self@, band@)]),
    {
        let b = chars_of(band);
        proof {
            lemma_band_index(self@, band@);
        }
        assert(b@ == band@);
        match self.position(b.as_slice()) {
            Some(i) => {
                assert(i as int == band_index(self@, band@));
                Some(&self.entries[i])
            },
            None => None,
        }
    }

    /// Records where the operator was on a band.
    pub fn remember(&mut self, band: &str, hz: i64, detector: Detector)
        ensures
            final(self)@ == remembered(old(self)@, band@, hz, detector),
    {
        let b = chars_of(band);
        if hz <= 0 || b.len() == 0 {
            return;
        }
        proof {
            lemma_band_index(self@, band@);
        }
        match self.position(b.as_slice()) {
            Some(i) => {
                let name = self.entries[i].band.clone();
                self.entries.set(i, BandEntry { band: name, hz, detector });
                assert(self@ =~= remembered(old(self)@, band@, hz, detector));
            },
            None => {
                assert(b@ == band@);
                let name = string_of(b.as_slice());
                let ghost before = self.entries@;
                self.entries.push(BandEntry { band: name, hz, detector });
                assert(self.entries@ == before.push(BandEntry { band: name, hz, detector }));
                assert(self@ =~= remembered(old(self)@, band@, hz, detector));
            },
        }
    }

    /// What `load` reads out of a document.
    pub open spec fn loaded(d: Seq<SectionView>, r: &BandSettings) -> bool {
        r@ == load_stack(read_list(d, "bands"@, "stack"@))
    }

    /// The lines `store` writes.
    pub open spec fn lines(&self) -> Seq<Line> {
        seq![
            Line::Note("Band stack: where the operator last was on each band and in which"@),
            Line::Note("mode, written as band:frequency:mode. Maintained by the band buttons;"@),
            Line::Note("editing it by hand works as well, and a band absent from it lands a"@),
            Line::Note("tenth of the way in."@),
            Line::Value("stack"@, join(self@.map_values(|e: BandView| entry_text(e)))),
        ]
    }

    /// One list rather than one key per band. The set of bands is stated by
    /// the plan rather than by this file, so a key per band would mean this
    /// code holding a second copy of that set. An item that names no band or
    /// no positive frequency is skipped.
    pub fn load(ini: &Ini) -> (r: Self)
        ensures
            Self::loaded(ini@, &r),
    {
        let items = ini.get_list("bands", "stack");
        let ghost list = read_list(ini@, "bands"@, "stack"@);
        let mut out = BandSettings::default();
        let mut i: usize = 0;
        while i < items.len()
            invariant
                i <= items@.len(),
                items@.len() == list.len(),
                forall|k: int| 0 <= k < items@.len() ==> #[trigger] items@[k]@ == list[k],
                out@ == load_stack(list.take(i as int)),
            decreases items@.len() - i,
        {
            assert(list.take(i + 1).drop_last() =~= list.take(i as int));
            assert(list.take(i + 1).last() == items@[i as int]@);
            match parse_entry(items[i].as_str()) {
                Some(e) => {
                    out.entries.push(e);
                    assert(out@ =~= load_stack(list.take(i + 1)));
                },
                None => {
                    assert(out@ =~= load_stack(list.take(i + 1)));
                },
            }
            i += 1;
        }
        assert(list.take(i as int) =~= list);
        out
    }

    pub fn store(&self, ini: &mut Ini)
        ensures
            final(ini)@ == write_lines(old(ini)@, "bands"@, self.lines()),
    {
        let s = "bands";
        ini.comment(s, "Band stack: where the operator last was on each band and in which");
        ini.comment(s, "mode, written as band:frequency:mode. Maintained by the band buttons;");
        ini.comment(s, "editing it by hand works as well, and a band absent from it lands a");
        ini.comment(s, "tenth of the way in.");
        let mut items: Vec<String> = Vec::new();
        let mut i: usize = 0;
        while i < self.entries.len()
            invariant
                i <= self.entries@.len(),
                items@.len() == i,
                forall|k: int| 0 <= k < i ==> #[trigger] items@[k]@ == entry_text(self.entries@[k]@),
            decreases self.entries@.len() - i,
        {
            let e = &self.entries[i];
            let mut t = String::new();
            push_str(&mut t, e.band.as_str());
            push_char(&mut t, ':');
            let h = format_signed(e.hz);
            push_str(&mut t, h.as_str());
            push_char(&mut t, ':');
            push_str(&mut t, e.detector.to_config());
            assert(t@ =~= entry_text(e@));
            items.push(t);
            i += 1;
        }
        assert(items@.map_values(|x: String| x@) =~= self@.map_values(|e: BandView| entry_text(e)));
        ini.set_list(s, "stack", items.as_slice());
        proof {
            reveal_with_fuel(write_lines, 6);
        }
    }
}

/// Reads one stack item, see `stack_entry`.
fn parse_entry(item: &str) -> (r: Option<BandEntry>)
    ensures
        r matches Some(e) ==> stack_entry(item@) == Some(e@),
        r is None ==> stack_entry(item@) is None,
{
    let c = chars_of(item);
    let parts = split_chars(c.as_slice(), ':');
    let ghost ps = split(item@, ':');
    let empty: Vec<char> = Vec::new();
    let p0 = if parts.len() > 0 { trim_chars(parts[0].as_slice()) } else { trim_chars(empty.as_slice()) };
    let p1 = if parts.len() > 1 { trim_chars(parts[1].as_slice()) } else { trim_chars(empty.as_slice()) };
    let p2 = if parts.len() > 2 { trim_chars(parts[2].as_slice()) } else { trim_chars(empty.as_slice()) };
    assert(p0@ == trim(piece(ps, 0)));
    assert(p1@ == trim(piece(ps, 1)));
    assert(p2@ == trim(piece(ps, 2)));
    let hz: i64 = match parse_signed_chars(p1.as_slice(), i64::MIN, i64::MAX) {
        Some(v) => v,
        None => 0,
    };
    let low = lowercase(p2.as_slice());
    let name = string_of(low.as_slice());
    let detector = match Detector::from_config(name.as_str()) {
        Some(d) => d,
        None => Detector::Usb,
    };
    if p0.len() == 0 || hz <= 0 {
        return None;
    }
    Some(BandEntry { band: string_of(p0.as_slice()), hz, detector })
}


/// What a mode is written as: not empty, and free of the separators.
proof fn lemma_detector_chars(x: Detector)
    ensures
        x.spec_to_config().len() > 0,
        forall|i: int| 0 <= i < x.spec_to_config().len() ==> #[trigger] x.spec_to_config()[i] != ','
            && x.spec_to_config()[i] != ':',
{
    reveal_strlit("am");
    reveal_strlit("cw");
    reveal_strlit("dig_l");
    reveal_strlit("dig_u");
    reveal_strlit("fm");
    reveal_strlit("lsb");
    reveal_strlit("sam");
    reveal_strlit("usb");
}

/// An entry the stack carries unchanged: a band name that is not empty, has
/// no whitespace at either end and no comma or colon, and a positive
/// frequency.
pub open spec fn band_ok(e: BandView) -> bool {
    &&& list_item(e.0)
    &&& forall|j: int| 0 <= j < e.0.len() ==> #[trigger] e.0[j] != ':'
    &&& e.1 > 0
}

proof fn lemma_entry_text(e: BandView)
    requires
        band_ok(e),
    ensures
        list_item(entry_text(e)),
        stack_entry(entry_text(e)) == Some(e),
{
    let band = e.0;
    let dec = signed_decimal(e.1 as int);
    let det = e.2.spec_to_config();
    let t = entry_text(e);
    lemma_decimal(e.1 as nat);
    assert(dec == decimal(e.1 as nat));
    lemma_detector_chars(e.2);
    lemma_detector_text(e.2);
    lemma_plain_text(det);
    assert forall|j: int| 0 <= j < dec.len() implies #[trigger] dec[j] != ':' && dec[j] != ',' && !is_ws(dec[j]) by {
        assert(is_digit(dec[j]));
    }
    // The pieces.
    let rest = dec + seq![':'] + det;
    assert(t =~= band + seq![':'] + rest);
    lemma_split_concat(band, rest, ':');
    lemma_split_concat(dec, det, ':');
    lemma_split_none(det, ':');
    let ps = split(t, ':');
    assert(ps =~= seq![band, dec, det]);
    assert(piece(ps, 0) == band);
    assert(piece(ps, 1) == dec);
    assert(piece(ps, 2) == det);
    lemma_signed_text(e.1 as int, i64::MIN as int, i64::MAX as int);
    // The item as a list element.
    lemma_trimmed_ends(band);
    assert(t[0] == band[0]);
    assert(t.last() == det.last());
    lemma_clean_ends(t);
    assert forall|j: int| 0 <= j < t.len() implies #[trigger] t[j] != ',' by {
        if j < band.len() {
            assert(t[j] == band[j]);
        } else if j == band.len() {
        } else if j < band.len() + 1 + dec.len() {
            assert(t[j] == dec[j - band.len() - 1]);
        } else if j == band.len() + 1 + dec.len() {
        } else {
            assert(t[j] == det[j - band.len() - 2 - dec.len()]);
        }
    }
}

proof fn lemma_load_stack_texts(v: Seq<BandView>)
    requires
        forall|i: int| 0 <= i < v.len() ==> band_ok(#[trigger] v[i]),
    ensures
        load_stack(v.map_values(|e: BandView| entry_text(e))) == v,
    decreases v.len(),
{
    let items = v.map_values(|e: BandView| entry_text(e));
    if v.len() > 0 {
        let d = v.drop_last();
        assert forall|i: int| 0 <= i < d.len() implies band_ok(#[trigger] d[i]) by {
            assert(d[i] == v[i]);
        }
        lemma_load_stack_texts(d);
        assert(items.drop_last() =~= d.map_values(|e: BandView| entry_text(e)));
        lemma_entry_text(v.last());
        assert(items.last() == entry_text(v.last()));
        assert(v =~= d.push(v.last()));
    } else {
        assert(v =~= Seq::<BandView>::empty());
    }
}

/// Storing the band stack and loading it back gives the stack stored, when
/// every band name can be written as an item.
pub proof fn lemma_bands_round_trip(d: Seq<SectionView>, x: BandSettings)
    requires
        forall|i: int| 0 <= i < x@.len() ==> band_ok(#[trigger] x@[i]),
    ensures
        BandSettings::loaded(write_lines(d, "bands"@, x.lines()), &x),
{
    let lines = x.lines();
    let s = "bands"@;
    let items = x@.map_values(|e: BandView| entry_text(e));
    assert(keys_plain(lines) && plain_text("stack"@)) by {
        reveal_with_fuel(keys_plain, 6);
        reveal_with_fuel(plain_text, 10);
        reveal_strlit("stack");
    }
    assert(last_write(lines, "stack"@) == Some(join(items))) by {
        reveal_with_fuel(last_write, 6);
    }
    lemma_reads_back(d, s, lines, "stack"@);
    assert forall|i: int| 0 <= i < items.len() implies list_item(#[trigger] items[i]) by {
        lemma_entry_text(x@[i]);
    }
    lemma_list_items_join(items);
    lemma_load_stack_texts(x@);
}

/// Once a band is remembered with a positive frequency, looking it up gives
/// that frequency and that detector.
pub proof fn lemma_remember_then_find(v: Seq<BandView>, band: Seq<char>, hz: i64, detector: Detector)
    requires
        hz > 0,
        band.len() > 0,
    ensures
        ({
            let w = remembered(v, band, hz, detector);
            let i = band_index(w, band);
            i >= 0 && w[i].1 == hz && w[i].2 == detector
        }),
{
    lemma_band_index(v, band);
    let w = remembered(v, band, hz, detector);
    let i = band_index(v, band);
    if i >= 0 {
        assert forall|j: int| 0 <= j < w.len() implies #[trigger] w[j].0 == v[j].0 by {}
        lemma_band_index_same_names(v, w, band);
    } else {
        lemma_eq_ic_refl(band);
        lemma_band_index(w, band);
        assert(eq_ic(w[v.len() as int].0, band));
        let r = band_index(w, band);
        if r >= 0 && r < v.len() {
            assert(w[r] == v[r]);
        }
    }
}

/// Remembering keeps at most one entry per band.
pub proof fn lemma_remember_keeps_bands_apart(v: Seq<BandView>, band: Seq<char>, hz: i64, detector: Detector)
    requires
        forall|a: int, b: int| 0 <= a < b < v.len() ==> !eq_ic(#[trigger] v[a].0, #[trigger] v[b].0),
    ensures
        ({
            let w = remembered(v, band, hz, detector);
            forall|a: int, b: int| 0 <= a < b < w.len() ==> !eq_ic(#[trigger] w[a].0, #[trigger] w[b].0)
        }),
{
    lemma_band_index(v, band);
    let w = remembered(v, band, hz, detector);
    if !(hz <= 0 || band.len() == 0) && band_index(v, band) < 0 {
        assert forall|a: int, b: int| 0 <= a < b < w.len() implies !eq_ic(#[trigger] w[a].0, #[trigger] w[b].0) by {
            if b == v.len() {
                assert(w[b].0 == band);
                assert(w[a] == v[a]);
                lemma_eq_ic_sym(v[a].0, band);
            } else {
                assert(w[a] == v[a]);
                assert(w[b] == v[b]);
            }
        }
    } else {
        assert forall|a: int, b: int| 0 <= a < b < w.len() implies !eq_ic(#[trigger] w[a].0, #[trigger] w[b].0) by {
            assert(w[a].0 == v[a].0);
            assert(w[b].0 == v[b].0);
        }
    }
}

/// Two stacks with the same band names find a band at the same position.
proof fn lemma_band_index_same_names(v: Seq<BandView>, w: Seq<BandView>, band: Seq<char>)
    requires
        v.len() == w.len(),
        forall|j: int| 0 <= j < v.len() ==> #[trigger] w[j].0 == v[j].0,
    ensures
        band_index(w, band) == band_index(v, band),
    decreases v.len(),
{
    if v.len() > 0 {
        assert(w[0].0 == v[0].0);
        let (v1, w1) = (v.drop_first(), w.drop_first());
        assert forall|j: int| 0 <= j < v1.len() implies #[trigger] w1[j].0 == v1[j].0 by {
            assert(w1[j] == w[j + 1]);
            assert(v1[j] == v[j + 1]);
        }
        lemma_band_index_same_names(v1, w1, band);
    }
}

} // verus!
