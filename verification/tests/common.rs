use rxscope::common::error::{Category, Error};
use rxscope::common::log::{account_line, admits, rotation_limit, Level};
use rxscope::common::ring::RingBuffer;

#[test]
fn an_error_shows_its_category_message_and_code() {
    let e = Error::with_code(Category::Vulkan, "device lost", -4);
    assert_eq!(e.to_text(), "[vulkan] device lost (code -4)");
    let e = Error::config("bad value");
    assert_eq!(e.category, Category::Config);
    assert_eq!(e.code, 0);
    assert_eq!(e.to_text(), "[config] bad value");
}

#[test]
fn every_error_constructor_sets_its_category() {
    assert_eq!(Error::platform("p").category, Category::Platform);
    assert_eq!(Error::io("i").category, Category::Io);
    assert_eq!(Error::vulkan("v").category, Category::Vulkan);
    assert_eq!(Error::audio("a").category, Category::Audio);
    assert_eq!(Error::font("f").category, Category::Font);
    assert_eq!(Error::new(Category::Dsp, "d").to_text(), "[dsp] d");
    assert_eq!(Category::Other.as_str(), "other");
}

#[test]
fn the_level_filter_passes_what_is_at_least_as_severe() {
    assert!(admits(Level::Warn, Level::Info));
    assert!(admits(Level::Info, Level::Info));
    assert!(!admits(Level::Debug, Level::Info));
    // A sink switched off writes nothing, not even errors.
    assert!(!admits(Level::Error, Level::Off));
    assert!(!admits(Level::Off, Level::Off));
    assert_eq!(Level::Warn.as_str(), "WARN ");
    assert_eq!(Level::Trace.rank(), 0);
    assert_eq!(Level::Off.rank(), 5);
}

#[test]
fn a_file_rotates_after_the_line_that_reaches_the_limit() {
    assert_eq!(rotation_limit(4), 4096);
    assert_eq!(account_line(100, 20, 200), (120, false));
    assert_eq!(account_line(190, 20, 200), (0, true));
    // Nought disables rotation.
    assert_eq!(account_line(190, 20, 0), (210, false));
}

#[test]
fn the_ring_is_first_in_first_out() {
    let mut r: RingBuffer<i32> = RingBuffer::new(5);
    assert_eq!(r.capacity(), 8);
    assert!(r.is_empty());
    assert!(r.write(&[1, 2, 3]));
    assert!(r.write(&[4, 5]));
    assert_eq!(r.len(), 5);
    let mut out = [0i32; 4];
    assert_eq!(r.read(&mut out), 4);
    assert_eq!(out, [1, 2, 3, 4]);
    // Wrap around the end of the storage.
    assert!(r.write(&[6, 7, 8, 9, 10, 11]));
    let mut rest = [0i32; 10];
    assert_eq!(r.read(&mut rest), 7);
    assert_eq!(&rest[..7], &[5, 6, 7, 8, 9, 10, 11]);
    assert_eq!(&rest[7..], &[0, 0, 0]);
}

#[test]
fn a_block_that_does_not_fit_is_dropped_and_counted() {
    let mut r: RingBuffer<u8> = RingBuffer::new(4);
    assert!(r.write(&[1, 2, 3]));
    assert!(!r.write(&[4, 5]));
    assert_eq!(r.overruns(), 1);
    assert_eq!(r.len(), 3);
    assert_eq!(r.skip(2), 2);
    assert_eq!(r.skip(5), 1);
    assert!(r.is_empty());
    // A tiny request still gets room for two samples.
    let small: RingBuffer<u8> = RingBuffer::new(0);
    assert_eq!(small.capacity(), 2);
}
