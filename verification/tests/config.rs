use rxscope::config::ini::{ConfigEnum, Ini};
use rxscope::config::panel::{PanelSettings, PANEL_TABS};
use rxscope::config::sections::{
    parse_rgb, BandEntry, BandSettings, CallsignSettings, LogSettings, RenderSettings,
};
use rxscope::config::settings::{
    AudioBackend, CallsignSource, Detector, LogLevelCfg, PanelSection, PresentModeCfg,
};
use rxscope::common::log::Level;
use rxscope::number::{format_hex_padded, format_signed, format_unsigned, parse_hex_chars, parse_signed_chars, parse_unsigned_chars};

fn chars(s: &str) -> Vec<char> {
    s.chars().collect()
}

#[test]
fn a_document_reads_values_with_defaults() {
    let ini = Ini::parse("; top\n[Audio]\nrate = 48000\nname = \"  padded  \"\nflag = Yes\n\n[other]\nk=v\n");
    assert!(ini.has_section("audio"));
    assert!(!ini.has_section("missing"));
    assert_eq!(ini.get_u32("audio", "RATE", 1), 48000);
    assert_eq!(ini.get_string("audio", "name", "x"), "  padded  ");
    assert!(ini.get_bool("audio", "flag", false));
    assert_eq!(ini.get_u32("audio", "absent", 7), 7);
    assert_eq!(ini.raw("other", "k"), Some("v"));
    assert_eq!(ini.section_names(), vec!["Audio", "other"]);
    assert_eq!(ini.pairs(), vec![("Audio", "rate", "48000"), ("Audio", "name", "  padded  "), ("Audio", "flag", "Yes"), ("other", "k", "v")]);
}

#[test]
fn a_later_assignment_wins() {
    let ini = Ini::parse("[s]\nk = 1\nK = 2\n");
    assert_eq!(ini.get_i32("s", "k", 0), 2);
    assert_eq!(ini.pairs().len(), 1);
}

#[test]
fn malformed_lines_are_skipped() {
    let ini = Ini::parse("[broken\nno equals sign\n = empty key\n[s]\nk = v\n");
    assert_eq!(ini.get_string("s", "k", ""), "v");
    assert_eq!(ini.pairs().len(), 1);
}

#[test]
fn numbers_out_of_range_give_the_default() {
    let ini = Ini::parse("[n]\nbig = 4294967296\nneg = -5\nsmall = 2\nword = ten\n");
    assert_eq!(ini.get_u32("n", "big", 9), 9);
    assert_eq!(ini.get_u32("n", "neg", 9), 9);
    assert_eq!(ini.get_i32("n", "neg", 0), -5);
    assert_eq!(ini.get_usize("n", "word", 3), 3);
    // Outside the range: the default, itself clamped.
    assert_eq!(ini.get_u32_clamped("n", "small", 50, 10, 100), 50);
    assert_eq!(ini.get_u32_clamped("n", "small", 500, 10, 100), 100);
    assert_eq!(ini.get_u32_clamped("n", "absent", 5, 10, 100), 10);
    assert_eq!(ini.get_u32_clamped("n", "small", 5, 1, 100), 2);
}

#[test]
fn a_value_written_reads_back() {
    let mut ini = Ini::new();
    ini.set_u32("s", "a", 42);
    ini.set_i32("s", "b", -17);
    ini.set_bool("s", "c", false);
    ini.set_usize("s", "d", 9);
    ini.set_enum("s", "e", Detector::DigL);
    ini.set_string("s", "f", "text");
    assert_eq!(ini.get_u32("s", "a", 0), 42);
    assert_eq!(ini.get_i32("s", "b", 0), -17);
    assert!(!ini.get_bool("s", "c", true));
    assert_eq!(ini.get_usize("s", "d", 0), 9);
    assert_eq!(ini.get_enum("s", "e", Detector::Usb), Detector::DigL);
    assert_eq!(ini.get_string("s", "f", ""), "text");
    // Writing one key leaves the others alone.
    ini.set_u32("s", "a", 43);
    assert_eq!(ini.get_i32("s", "b", 0), -17);
}

#[test]
fn a_list_written_reads_back() {
    let mut ini = Ini::new();
    let items = vec!["one".to_string(), "two words".to_string(), "3".to_string()];
    ini.set_list("s", "l", &items);
    assert_eq!(ini.raw("s", "l"), Some("one, two words, 3"));
    assert_eq!(ini.get_list("s", "l"), items);
    let ini = Ini::parse("[s]\nl = a,, b ,c\n");
    assert_eq!(ini.get_list("s", "l"), vec!["a", "b", "c"]);
    assert!(ini.get_list("s", "none").is_empty());
}

#[test]
fn the_text_form_keeps_comments_and_quotes_padding() {
    let mut ini = Ini::new();
    ini.comment("s", "about s");
    ini.set_string("s", "k", " v ");
    ini.blank("s");
    ini.set_string("t", "x", "1");
    assert_eq!(ini.to_text(), "[s]\n; about s\nk = \" v \"\n\n\n[t]\nx = 1\n");
    let again = Ini::parse(&ini.to_text());
    assert_eq!(again.get_string("s", "k", ""), " v ");
    assert_eq!(again.get_string("t", "x", ""), "1");
}

#[test]
fn enums_read_their_text_in_any_case() {
    let ini = Ini::parse("[s]\nbackend = WASAPI\nold = waveein\nbad = nothing\n");
    assert_eq!(ini.get_enum("s", "backend", AudioBackend::default()), AudioBackend::Wasapi);
    assert_eq!(AudioBackend::from_config("wasapi_loopback"), Some(AudioBackend::Wasapi));
    assert_eq!(ini.get_enum("s", "bad", PresentModeCfg::Fifo), PresentModeCfg::Fifo);
    assert_eq!(Detector::variants().len(), 8);
    assert_eq!(CallsignSource::Disabled.to_config(), "none");
    assert_eq!(LogLevelCfg::from_level(Level::Warn).to_level(), Level::Warn);
}

#[test]
fn numbers_are_written_and_read_as_std_does() {
    assert_eq!(format_unsigned(0), "0");
    assert_eq!(format_unsigned(18446744073709551615), "18446744073709551615");
    assert_eq!(format_signed(-9223372036854775808), "-9223372036854775808");
    assert_eq!(parse_unsigned_chars(&chars("+12"), 100), Some(12));
    assert_eq!(parse_unsigned_chars(&chars("101"), 100), None);
    assert_eq!(parse_unsigned_chars(&chars(""), 100), None);
    assert_eq!(parse_signed_chars(&chars("-12"), -100, 100), Some(-12));
    assert_eq!(parse_signed_chars(&chars("-"), -100, 100), None);
    assert_eq!(parse_hex_chars(&chars("1e1E1e"), u32::MAX as u64), Some(0x1E1E1E));
    assert_eq!(parse_hex_chars(&chars("g"), u32::MAX as u64), None);
    assert_eq!(format_hex_padded(0x2F81F7, 6), "2F81F7");
    assert_eq!(format_hex_padded(0xAB, 6), "0000AB");
}

#[test]
fn a_colour_reads_with_or_without_a_prefix() {
    assert_eq!(parse_rgb("1E1E1E"), Some(0x1E1E1E));
    assert_eq!(parse_rgb(" #2f81f7 "), Some(0x2F81F7));
    assert_eq!(parse_rgb("0x00FF00"), Some(0x00FF00));
    assert_eq!(parse_rgb("FF123456"), Some(0x123456));
    assert_eq!(parse_rgb("blue"), None);
    assert_eq!(parse_rgb(""), None);
}

#[test]
fn the_log_section_loads_what_it_stored() {
    let mut x = LogSettings::default();
    x.level = Level::Debug;
    x.max_size_kb = 0;
    x.file_path = "elsewhere.log".to_string();
    let mut ini = Ini::new();
    x.store(&mut ini);
    let y = LogSettings::load(&ini);
    assert_eq!(y.level, Level::Debug);
    assert_eq!(y.max_size_kb, 0);
    assert_eq!(y.file_path, "elsewhere.log");
    assert_eq!(y.transcript_path, "logs/transcript.txt");
    let d = LogSettings::load(&Ini::new());
    assert_eq!(d.level, Level::Info);
    assert_eq!(d.max_size_kb, 4096);
}

#[test]
fn the_callsign_section_clamps_on_load() {
    let ini = Ini::parse("[callsign]\ncache_entries = 5\nmin_callsign_length = 20\nsource = LOCAL_FILE\n");
    let c = CallsignSettings::load(&ini);
    assert_eq!(c.cache_entries, 4096);
    assert_eq!(c.min_callsign_length, 4);
    assert_eq!(c.source, CallsignSource::LocalFile);
    let mut out = Ini::new();
    c.store(&mut out);
    let again = CallsignSettings::load(&out);
    assert_eq!(again.source, CallsignSource::LocalFile);
    assert_eq!(again.history_path, "logs/callsigns.txt");
    assert_eq!(out.raw("callsign", "history_limit"), Some("5000"));
}

#[test]
fn the_render_section_writes_the_background_as_hex() {
    let mut r = RenderSettings::default();
    r.background_rgb = 0x00AB12;
    r.device_index = 2;
    r.present_mode = PresentModeCfg::Mailbox;
    let mut ini = Ini::new();
    r.store(&mut ini);
    assert_eq!(ini.raw("render", "background_rgb"), Some("00AB12"));
    let back = RenderSettings::load(&ini);
    assert_eq!(back.background_rgb, 0x00AB12);
    assert_eq!(back.device_index, 2);
    assert_eq!(back.present_mode, PresentModeCfg::Mailbox);
    let bad = RenderSettings::load(&Ini::parse("[render]\nbackground_rgb = nope\nframes_in_flight = 9\n"));
    assert_eq!(bad.background_rgb, 0x1E1E1E);
    assert_eq!(bad.frames_in_flight, 2);
}

#[test]
fn the_band_stack_remembers_one_entry_per_band() {
    let mut b = BandSettings::default();
    b.remember("20m", 14_074_000, Detector::DigU);
    b.remember("40m", 7_030_000, Detector::Cw);
    b.remember("20M", 14_200_000, Detector::Usb);
    assert_eq!(b.entries.len(), 2);
    let e = b.find("20m").unwrap();
    assert_eq!(e.band, "20m");
    assert_eq!(e.hz, 14_200_000);
    assert_eq!(e.detector, Detector::Usb);
    // A frequency that is not positive or a nameless band changes nothing.
    b.remember("80m", 0, Detector::Lsb);
    b.remember("", 3_500_000, Detector::Lsb);
    assert_eq!(b.entries.len(), 2);
    assert!(b.find("80m").is_none());
}

#[test]
fn the_band_stack_loads_what_it_stored() {
    let mut b = BandSettings::default();
    b.entries.push(BandEntry { band: "20m".to_string(), hz: 14_074_000, detector: Detector::DigU });
    b.entries.push(BandEntry { band: "160m".to_string(), hz: 1_840_000, detector: Detector::Lsb });
    let mut ini = Ini::new();
    b.store(&mut ini);
    assert_eq!(ini.raw("bands", "stack"), Some("20m:14074000:dig_u, 160m:1840000:lsb"));
    let back = BandSettings::load(&ini);
    assert_eq!(back.entries.len(), 2);
    assert_eq!(back.entries[1].band, "160m");
    assert_eq!(back.entries[1].hz, 1_840_000);
    assert_eq!(back.entries[1].detector, Detector::Lsb);
    // Broken items are skipped, a missing mode is the upper sideband.
    let ini = Ini::parse("[bands]\nstack = :100:cw, 30m:x:cw, 17m:18100000, 15m:21074000:NOPE\n");
    let l = BandSettings::load(&ini);
    assert_eq!(l.entries.len(), 2);
    assert_eq!(l.entries[0].band, "17m");
    assert_eq!(l.entries[0].detector, Detector::Usb);
    assert_eq!(l.entries[1].detector, Detector::Usb);
}

#[test]
fn detector_classes() {
    assert!(Detector::Cw.is_sideband());
    assert!(Detector::Cw.is_keyed());
    assert!(!Detector::Am.is_sideband());
    assert!(Detector::DigL.is_lower_sideband());
    assert!(!Detector::Usb.is_lower_sideband());
    assert!(Detector::Sam.needs_carrier());
    assert!(!Detector::Lsb.needs_carrier());
}

#[test]
fn a_panel_without_a_stored_layout_is_the_shipped_one() {
    let p = PanelSettings::load(&Ini::new());
    let d = PanelSettings::default();
    for t in 0..PANEL_TABS {
        assert_eq!(p.sections(t), d.sections(t));
    }
    assert_eq!(p.sections(0), &[PanelSection::Rig, PanelSection::Receiver, PanelSection::Meter]);
    assert!(p.sections(PANEL_TABS).is_empty());
    assert_eq!(PanelSection::all().len(), 14);
    assert_eq!(PanelSection::Spots.key(), "group.spots");
}

#[test]
fn a_section_new_to_the_file_goes_to_its_home_tab() {
    // Written before the seen list existed, and before the spots section.
    let ini = Ini::parse("[panel]\nreceive = rig, meter, rig\naudio = audio, monitor\ndecode = cw_decoder, bogus\ndisplay = spectrum, waterfall\n");
    let p = PanelSettings::load(&ini);
    assert_eq!(p.sections(0), &[PanelSection::Rig, PanelSection::Meter, PanelSection::Receiver]);
    assert_eq!(p.sections(2)[0], PanelSection::CwDecoder);
    assert!(p.sections(2).contains(&PanelSection::Spots));
}

#[test]
fn a_section_removed_on_purpose_stays_removed() {
    let mut p = PanelSettings::default();
    let mut ini = Ini::new();
    p.store(&mut ini);
    let text = ini.raw("panel", "receive").unwrap().to_string();
    assert_eq!(text, "rig, receiver, meter");
    // Remove the meter from its tab, keep it in the seen list.
    let edited = Ini::parse(&ini.to_text().replacen("receive = rig, receiver, meter", "receive = rig, receiver", 1));
    let back = PanelSettings::load(&edited);
    assert_eq!(back.sections(0), &[PanelSection::Rig, PanelSection::Receiver]);
    p.reset_tab(0);
    assert_eq!(p.sections(0).len(), 3);
}
