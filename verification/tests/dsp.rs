use rxscope::dsp::{effective_rate, transform_size, waterfall_columns};
use rxscope::font::FontId;

#[test]
fn a_transform_size_is_rounded_up_to_a_power_of_two() {
    assert_eq!(transform_size(256), 256);
    assert_eq!(transform_size(257), 512);
    assert_eq!(transform_size(4096), 4096);
    assert_eq!(transform_size(5000), 8192);
    assert_eq!(transform_size(65535), 65536);
    assert_eq!(transform_size(65536), 65536);
}

#[test]
fn the_reduction_composes_with_the_rate() {
    assert_eq!(effective_rate(48000, 4), 12000);
    assert_eq!(effective_rate(48000, 0), 48000);
    assert_eq!(effective_rate(8000, 16), 1000);
}

#[test]
fn the_history_width_follows_the_transform() {
    assert_eq!(waterfall_columns(100, false, 4096), 256);
    assert_eq!(waterfall_columns(2000, true, 4096), 2000);
    assert_eq!(waterfall_columns(0, false, 4096), 4096);
    assert_eq!(waterfall_columns(0, true, 4096), 8192);
    assert_eq!(waterfall_columns(0, true, 16384), 16384);
    assert_eq!(waterfall_columns(0, false, 256), 1024);
}

#[test]
fn font_slots_are_in_table_order() {
    assert_eq!(FontId::Ui.index(), 0);
    assert_eq!(FontId::Mono.index(), 1);
}
