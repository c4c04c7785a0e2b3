use rxscope::font::atlas::Atlas;

#[test]
fn glyphs_fill_a_shelf_left_to_right() {
    let mut a = Atlas::new(16, 16);
    assert_eq!(a.pixels().len(), 256);
    assert_eq!(a.insert(4, 4), Some((0, 0)));
    assert_eq!(a.insert(5, 4), Some((4, 0)));
    // Not far shorter than the shelf: goes on it.
    assert_eq!(a.insert(3, 3), Some((9, 0)));
    // Far shorter: a new shelf below.
    assert_eq!(a.insert(2, 2), Some((0, 4)));
    // No room left on the first shelf.
    assert_eq!(a.insert(5, 4), Some((0, 6)));
}

#[test]
fn an_impossible_glyph_is_refused() {
    let mut a = Atlas::new(8, 8);
    assert_eq!(a.insert(0, 3), None);
    assert_eq!(a.insert(9, 1), None);
    assert_eq!(a.insert(8, 8), Some((0, 0)));
    assert_eq!(a.insert(1, 1), None);
}

#[test]
fn a_write_marks_full_rows_for_upload() {
    let mut a = Atlas::new(4, 4);
    assert!(a.take_dirty().is_none());
    a.write(1, 1, 2, 2, &[1, 2, 3, 4]);
    let (y, rows, data) = a.take_dirty().unwrap();
    assert_eq!((y, rows), (1, 2));
    assert_eq!(data, &[0, 1, 2, 0, 0, 3, 4, 0]);
    assert!(a.take_dirty().is_none());
    // A row past the end of the bitmap is skipped.
    a.write(0, 3, 2, 2, &[9, 9]);
    let (y, rows, data) = a.take_dirty().unwrap();
    assert_eq!((y, rows), (3, 1));
    assert_eq!(data, &[9, 9, 0, 0]);
}

#[test]
fn the_dirty_range_is_cut_to_the_atlas() {
    let mut a = Atlas::new(2, 2);
    a.write(0, 5, 1, 1, &[7]);
    assert!(a.take_dirty().is_none());
    assert_eq!(a.pixels(), &[0, 0, 0, 0]);
}

#[test]
fn the_used_rows_end_below_the_last_shelf() {
    let mut a = Atlas::new(8, 32);
    assert_eq!(a.used_rows(), 0);
    a.insert(3, 5);
    a.insert(3, 2);
    assert_eq!(a.used_rows(), 7);
}
