//! Single channel glyph atlas with shelf packing.
//!
//! Shelf packing keeps rows of a fixed height and appends glyphs left to
//! right. It wastes some vertical space compared to a full bin packer but the
//! insert is constant time and the layout never has to be rebuilt, which
//! matters because a rebuild would invalidate every cached texture coordinate.
//!
//! Uploads are tracked as a range of full rows. Full rows make the staging
//! copy a contiguous slice of the backing buffer, so no repacking is needed
//! before handing the data to the renderer.

use vstd::prelude::*;
use vstd::slice::slice_subrange;

verus! {

/// A rectangle of texels.
pub struct Rect {
    pub x: nat,
    pub y: nat,
    pub w: nat,
    pub h: nat,
}

/// Two rectangles share no texel.
pub open spec fn disjoint(a: Rect, b: Rect) -> bool {
    a.x + a.w <= b.x || b.x + b.w <= a.x || a.y + a.h <= b.y || b.y + b.h <= a.y
}

/// A row of glyphs: its top row, its height, and its next free column.
pub struct ShelfView {
    pub y: nat,
    pub height: nat,
    pub x: nat,
}

/// Whether a glyph goes on a shelf: no taller than the shelf, not far shorter
/// than it, and room left on the row.
pub open spec fn fits(s: ShelfView, w: nat, h: nat, width: nat) -> bool {
    h <= s.height && h * 4 >= s.height * 3 && s.x + w <= width
}

/// First shelf a glyph fits on, or -1.
pub open spec fn first_fit(shelves: Seq<ShelfView>, w: nat, h: nat, width: nat) -> int
    decreases shelves.len(),
{
    if shelves.len() == 0 {
        -1
    } else if fits(shelves[0], w, h, width) {
        0
    } else {
        let r = first_fit(shelves.drop_first(), w, h, width);
        if r < 0 {
            -1
        } else {
            r + 1
        }
    }
}

proof fn lemma_first_fit(shelves: Seq<ShelfView>, w: nat, h: nat, width: nat)
    ensures
        -1 <= first_fit(shelves, w, h, width) < shelves.len(),
        first_fit(shelves, w, h, width) >= 0 ==> fits(shelves[first_fit(shelves, w, h, width)], w, h, width),
        forall|j: int|
            0 <= j < shelves.len() && (first_fit(shelves, w, h, width) < 0 || j < first_fit(
                shelves,
                w,
                h,
                width,
            )) ==> !fits(#[trigger] shelves[j], w, h, width),
    decreases shelves.len(),
{
    if shelves.len() > 0 && !fits(shelves[0], w, h, width) {
        let rest = shelves.drop_first();
        lemma_first_fit(rest, w, h, width);
        assert forall|j: int|
            0 <= j < shelves.len() && (first_fit(shelves, w, h, width) < 0 || j < first_fit(
                shelves,
                w,
                h,
                width,
            )) implies !fits(#[trigger] shelves[j], w, h, width) by {
            if j > 0 {
                assert(shelves[j] == rest[j - 1]);
            }
        }
    }
}

/// The shelf a glyph goes on is the first one that is tall enough, not more
/// than a third taller than the glyph, and has the glyph's width left before
/// the right edge; there is none only when no shelf has that room.
pub proof fn lemma_first_fit_is_first_room(shelves: Seq<ShelfView>, w: nat, h: nat, width: nat)
    ensures
        first_fit(shelves, w, h, width) < 0 <==> forall|j: int|
            0 <= j < shelves.len() ==> !(h <= (#[trigger] shelves[j]).height && h * 4 >= shelves[j].height
                * 3 && shelves[j].x + w <= width),
        first_fit(shelves, w, h, width) >= 0 ==> {
            let f = first_fit(shelves, w, h, width);
            &&& f < shelves.len()
            &&& h <= shelves[f].height && h * 4 >= shelves[f].height * 3 && shelves[f].x + w <= width
            &&& forall|j: int|
                0 <= j < f ==> !(h <= (#[trigger] shelves[j]).height && h * 4 >= shelves[j].height * 3
                    && shelves[j].x + w <= width)
        },
{
    lemma_first_fit(shelves, w, h, width);
    let f = first_fit(shelves, w, h, width);
    if f >= 0 {
        assert(fits(shelves[f], w, h, width));
    } else {
        assert forall|j: int| 0 <= j < shelves.len() implies !(h <= (#[trigger] shelves[j]).height && h
            * 4 >= shelves[j].height * 3 && shelves[j].x + w <= width) by {
            assert(!fits(shelves[j], w, h, width));
        }
    }
}

/// Row below the last shelf, where the next one opens.
pub open spec fn next_row(shelves: Seq<ShelfView>) -> nat {
    if shelves.len() == 0 {
        0
    } else {
        shelves.last().y + shelves.last().height
    }
}

/// The pixels after one glyph row is copied: row `row` of a `w` wide bitmap
/// lands at column `x` of atlas row `y + row`, when both ranges are in bounds.
pub open spec fn copy_row(px: Seq<u8>, width: nat, x: nat, y: nat, w: nat, data: Seq<u8>, row: nat) -> Seq<u8> {
    let src = row * w;
    let dst = (y + row) * width + x;
    if src + w <= data.len() && dst + w <= px.len() {
        Seq::new(px.len(), |p: int| if dst <= p < dst + w { data[src + p - dst] } else { px[p] })
    } else {
        px
    }
}

/// The pixels after the first `n` rows of a bitmap are copied, in order.
pub open spec fn copy_rows(px: Seq<u8>, width: nat, x: nat, y: nat, w: nat, data: Seq<u8>, n: nat) -> Seq<u8>
    decreases n,
{
    if n == 0 {
        px
    } else {
        copy_row(copy_rows(px, width, x, y, w, data, (n - 1) as nat), width, x, y, w, data, (n - 1) as nat)
    }
}

struct Shelf {
    /// Top row of the shelf.
    y: u32,
    /// Fixed height, set by the first glyph placed on it.
    height: u32,
    /// Next free column.
    x: u32,
}

impl View for Shelf {
    type V = ShelfView;

    closed spec fn view(&self) -> ShelfView {
        ShelfView { y: self.y as nat, height: self.height as nat, x: self.x as nat }
    }
}

pub struct Atlas {
    pub width: u32,
    pub height: u32,
    pixels: Vec<u8>,
    shelves: Vec<Shelf>,
    /// Half open row range waiting for upload; y1 <= y0 means clean.
    dirty_y0: u32,
    dirty_y1: u32,
    /// Every rectangle handed out, with the shelf it lies on.
    placed: Ghost<Seq<(Rect, int)>>,
}

impl Atlas {
    pub closed spec fn shelf_view(&self) -> Seq<ShelfView> {
        self.shelves@.map_values(|s: Shelf| s@)
    }

    /// Every rectangle handed out, in order.
    pub closed spec fn placed(&self) -> Seq<Rect> {
        self.placed@.map_values(|p: (Rect, int)| p.0)
    }

    pub closed spec fn spec_width(&self) -> u32 {
        self.width
    }

    pub closed spec fn spec_height(&self) -> u32 {
        self.height
    }

    pub closed spec fn pixel_view(&self) -> Seq<u8> {
        self.pixels@
    }

    pub closed spec fn dirty(&self) -> (u32, u32) {
        (self.dirty_y0, self.dirty_y1)
    }

    /// The packing invariant: shelves stacked from the top and inside the
    /// atlas, every rectangle on its shelf left of the free column, and no two
    /// rectangles overlapping.
    pub closed spec fn wf(&self) -> bool {
        let s = self.shelf_view();
        let p = self.placed@;
        &&& self.pixels@.len() == self.width as nat * self.height as nat
        &&& forall|i: int| 0 <= i < s.len() ==> (#[trigger] s[i]).height > 0 && s[i].x <= self.width
            && s[i].y + s[i].height <= next_row(s)
        &&& next_row(s) <= self.height
        &&& forall|i: int, j: int| 0 <= i < j < s.len() ==> #[trigger] s[i].y + s[i].height <= #[trigger] s[j].y
        &&& forall|k: int|
            0 <= k < p.len() ==> {
                let r = (#[trigger] p[k]).0;
                let i = p[k].1;
                &&& 0 <= i < s.len()
                &&& r.y == s[i].y
                &&& 0 < r.h <= s[i].height
                &&& 0 < r.w
                &&& r.x + r.w <= s[i].x
            }
        &&& forall|a: int, b: int| 0 <= a < b < p.len() ==> disjoint(#[trigger] p[a].0, #[trigger] p[b].0)
    }

    pub fn new(width: u32, height: u32) -> (r: Atlas)
        requires
            width as nat * height as nat <= usize::MAX,
        ensures
            r.wf(),
            r.spec_width() == width,
            r.spec_height() == height,
            r.pixel_view() == Seq::new(width as nat * height as nat, |i: int| 0u8),
            r.shelf_view() == Seq::<ShelfView>::empty(),
            r.placed() == Seq::<Rect>::empty(),
            r.dirty() == (u32::MAX, 0u32),
    {
        let n = (width as usize) * (height as usize);
        let mut pixels: Vec<u8> = Vec::new();
        let mut i: usize = 0;
        while i < n
            invariant
                i <= n,
                pixels@ == Seq::new(i as nat, |k: int| 0u8),
            decreases n - i,
        {
            pixels.push(0u8);
            i += 1;
            assert(pixels@ =~= Seq::new(i as nat, |k: int| 0u8));
        }
        let r = Atlas {
            width,
            height,
            pixels,
            shelves: Vec::new(),
            dirty_y0: u32::MAX,
            dirty_y1: 0,
            placed: Ghost(Seq::empty()),
        };
        assert(r.shelf_view() =~= Seq::<ShelfView>::empty());
        assert(r.placed() =~= Seq::<Rect>::empty());
        r
    }

    /// Full backing buffer, used for the initial texture upload.
    pub fn pixels(&self) -> (r: &[u8])
        ensures
            r@ == self.pixel_view(),
    {
        self.pixels.as_slice()
    }

    /// Rows taken by shelves, from the top: where the next shelf would open.
    pub fn used_rows(&self) -> (r: u32)
        requires
            self.wf(),
        ensures
            r == next_row(self.shelf_view()),
    {
        let n = self.shelves.len();
        if n == 0 {
            0
        } else {
            let ghost s = self.shelf_view();
            assert(s[n - 1] == self.shelves@[n - 1]@);
            self.shelves[n - 1].y + self.shelves[n - 1].height
        }
    }

    /// Copies a tightly packed glyph bitmap into the backing buffer and marks
    /// the affected rows for upload. A row that would fall outside the bitmap
    /// or the atlas is skipped.
    pub fn write(&mut self, x: u32, y: u32, w: u32, h: u32, data: &[u8])
        requires
            old(self).wf(),
            y as nat + h as nat <= u32::MAX,
        ensures
            final(self).wf(),
            final(self).spec_width() == old(self).spec_width(),
            final(self).spec_height() == old(self).spec_height(),
            final(self).shelf_view() == old(self).shelf_view(),
            final(self).placed() == old(self).placed(),
            final(self).pixel_view() == copy_rows(
                old(self).pixel_view(),
                old(self).spec_width() as nat,
                x as nat,
                y as nat,
                w as nat,
                data@,
                h as nat,
            ),
            final(self).dirty() == (
                if y < old(self).dirty().0 { y } else { old(self).dirty().0 },
                if y + h > old(self).dirty().1 { (y + h) as u32 } else { old(self).dirty().1 },
            ),
    {
        let width = self.width;
        let mut row: u32 = 0;
        while row < h
            invariant
                row <= h,
                y as nat + h as nat <= u32::MAX,
                width == self.width,
                self.width == old(self).width,
                self.height == old(self).height,
                self.shelves@ == old(self).shelves@,
                self.placed@ == old(self).placed@,
                self.dirty_y0 == old(self).dirty_y0,
                self.dirty_y1 == old(self).dirty_y1,
                self.pixels@.len() == old(self).pixels@.len(),
                self.pixels@ == copy_rows(old(self).pixels@, width as nat, x as nat, y as nat, w as nat, data@, row as nat),
            decreases h - row,
        {
            assert((row as nat) * (w as nat) <= 0xFFFF_FFFFnat * 0xFFFF_FFFFnat) by (nonlinear_arith)
                requires
                    row <= 0xFFFF_FFFFnat,
                    w <= 0xFFFF_FFFFnat,
            ;
            assert(((y + row) as nat) * (width as nat) <= 0xFFFF_FFFFnat * 0xFFFF_FFFFnat) by (nonlinear_arith)
                requires
                    y + row <= 0xFFFF_FFFFnat,
                    width <= 0xFFFF_FFFFnat,
            ;
            let src: u64 = (row as u64) * (w as u64);
            let dst: u64 = ((y + row) as u64) * (width as u64) + (x as u64);
            let n: u64 = w as u64;
            let ghost before = self.pixels@;
            if src + n <= data.len() as u64 && dst + n <= self.pixels.len() as u64 {
                let s0 = src as usize;
                let d0 = dst as usize;
                let mut k: usize = 0;
                while k < w as usize
                    invariant
                        k <= w,
                        s0 + w <= data@.len(),
                        d0 + w <= self.pixels@.len(),
                        s0 + w <= usize::MAX,
                        d0 + w <= usize::MAX,
                        width == self.width,
                        self.width == old(self).width,
                        self.height == old(self).height,
                        self.shelves@ == old(self).shelves@,
                        self.placed@ == old(self).placed@,
                        self.dirty_y0 == old(self).dirty_y0,
                        self.dirty_y1 == old(self).dirty_y1,
                        self.pixels@.len() == before.len(),
                        forall|p: int| 0 <= p < before.len() && !(d0 <= p < d0 + k) ==> #[trigger] self.pixels@[p] == before[p],
                        forall|p: int| d0 <= p < d0 + k ==> #[trigger] self.pixels@[p] == data@[s0 + p - d0],
                    decreases w - k,
                {
                    self.pixels.set(d0 + k, data[s0 + k]);
                    k += 1;
                }
                assert(self.pixels@ =~= copy_row(before, width as nat, x as nat, y as nat, w as nat, data@, row as nat));
            } else {
                assert(self.pixels@ =~= copy_row(before, width as nat, x as nat, y as nat, w as nat, data@, row as nat));
            }
            row += 1;
        }
        if y < self.dirty_y0 {
            self.dirty_y0 = y;
        }
        if y + h > self.dirty_y1 {
            self.dirty_y1 = y + h;
        }
    }

    /// Returns the pending row range and clears the dirty marker.
    /// The tuple is the first row, the row count and the pixel data.
    pub fn take_dirty(&mut self) -> (r: Option<(u32, u32, &[u8])>)
        requires
            old(self).wf(),
        ensures
            final(self).wf(),
            final(self).spec_width() == old(self).spec_width(),
            final(self).spec_height() == old(self).spec_height(),
            final(self).shelf_view() == old(self).shelf_view(),
            final(self).placed() == old(self).placed(),
            final(self).pixel_view() == old(self).pixel_view(),
            ({
                let (d0, d1) = old(self).dirty();
                let hh = old(self).spec_height();
                let y0 = if d0 < hh { d0 } else { hh };
                let y1 = if d1 < hh { d1 } else { hh };
                let ww = old(self).spec_width() as int;
                if d1 <= d0 {
                    r is None && final(self).dirty() == old(self).dirty()
                } else {
                    &&& final(self).dirty() == (u32::MAX, 0u32)
                    &&& if y1 <= y0 {
                        r is None
                    } else {
                        r matches Some(t) && t.0 == y0 && t.1 == y1 - y0
                            && t.2@ == old(self).pixel_view().subrange(y0 * ww, y1 * ww)
                    }
                }
            }),
    {
        if self.dirty_y1 <= self.dirty_y0 {
            return None;
        }
        let y0 = if self.dirty_y0 < self.height { self.dirty_y0 } else { self.height };
        let y1 = if self.dirty_y1 < self.height { self.dirty_y1 } else { self.height };
        self.dirty_y0 = u32::MAX;
        self.dirty_y1 = 0;
        if y1 <= y0 {
            return None;
        }
        assert((y0 as nat) * (self.width as nat) <= (y1 as nat) * (self.width as nat)) by (nonlinear_arith)
            requires y0 <= y1;
        assert((y1 as nat) * (self.width as nat) <= (self.height as nat) * (self.width as nat)) by (nonlinear_arith)
            requires y1 <= self.height;
        assert(self.pixels@.len() == (self.width as nat) * (self.height as nat));
        assert((self.height as nat) * (self.width as nat) == (self.width as nat) * (self.height as nat))
            by (nonlinear_arith);
        let total = self.pixels.len();
        assert((y1 as nat) * (self.width as nat) <= total);
        let start = (y0 as usize) * (self.width as usize);
        let end = (y1 as usize) * (self.width as usize);
        Some((y0, y1 - y0, slice_subrange(self.pixels.as_slice(), start, end)))
    }

    /// Reserves a rectangle and returns its top left corner, on the first
    /// shelf it fits on or on a new shelf below the last one. Returns None when
    /// the atlas is full.
    #[verifier::loop_isolation(false)]
    #[verifier::spinoff_prover]
    #[verifier::rlimit(60)]
    pub fn insert(&mut self, w: u32, h: u32) -> (r: Option<(u32, u32)>)
        requires
            old(self).wf(),
        ensures
            final(self).wf(),
            final(self).spec_width() == old(self).spec_width(),
            final(self).spec_height() == old(self).spec_height(),
            final(self).pixel_view() == old(self).pixel_view(),
            final(self).dirty() == old(self).dirty(),
            ({
                let s = old(self).shelf_view();
                let i = first_fit(s, w as nat, h as nat, old(self).spec_width() as nat);
                if w == 0 || h == 0 || w > old(self).spec_width() || h > old(self).spec_height() {
                    r is None && final(self).shelf_view() == s
                } else if i >= 0 {
                    &&& r == Some((s[i].x as u32, s[i].y as u32))
                    &&& final(self).shelf_view() == s.update(i, ShelfView { y: s[i].y, height: s[i].height, x: (s[i].x + w) as nat })
                } else if next_row(s) + h <= old(self).spec_height() {
                    &&& r == Some((0u32, next_row(s) as u32))
                    &&& final(self).shelf_view() == s.push(ShelfView { y: next_row(s), height: h as nat, x: w as nat })
                } else {
                    r is None && final(self).shelf_view() == s
                }
            }),
            r is None ==> final(self).placed() == old(self).placed(),
            r matches Some(p) ==> final(self).placed() == old(self).placed().push(
                Rect { x: p.0 as nat, y: p.1 as nat, w: w as nat, h: h as nat },
            ),
            // What packing is for: the rectangle lies inside the atlas and
            // overlaps nothing handed out before.
            r matches Some(p) ==> p.0 + w <= old(self).spec_width() && p.1 + h <= old(self).spec_height(),
            r matches Some(p) ==> forall|k: int|
                0 <= k < old(self).placed().len() ==> disjoint(
                    #[trigger] old(self).placed()[k],
                    Rect { x: p.0 as nat, y: p.1 as nat, w: w as nat, h: h as nat },
                ),
            // A glyph of a size the atlas can hold is refused only when the
            // atlas is full: no shelf is tall enough without being far taller,
            // with the width left, and no new shelf fits below the last one.
            ({
                let s = old(self).shelf_view();
                let width = old(self).spec_width() as nat;
                r is None && 0 < w && 0 < h && w <= width && h <= old(self).spec_height() ==> {
                    &&& next_row(s) + h > old(self).spec_height()
                    &&& forall|j: int|
                        0 <= j < s.len() ==> !(h <= (#[trigger] s[j]).height && h * 4 >= s[j].height * 3
                            && s[j].x + w <= width)
                }
            }),
            // The glyph goes to the free column of the first shelf that has
            // room for it, when one has.
            ({
                let s = old(self).shelf_view();
                let width = old(self).spec_width() as nat;
                forall|j: int|
                    0 <= j < s.len() && 0 < w && 0 < h && w <= width && h <= old(self).spec_height()
                        && h <= (#[trigger] s[j]).height && h * 4 >= s[j].height * 3 && s[j].x + w <= width
                        && (forall|i: int|
                        0 <= i < j ==> !(h <= (#[trigger] s[i]).height && h * 4 >= s[i].height * 3 && s[i].x + w
                            <= width)) ==> r == Some((s[j].x as u32, s[j].y as u32))
            }),
    {
        if w == 0 || h == 0 || w > self.width || h > self.height {
            return None;
        }
        let ghost s = self.shelf_view();
        let ghost p = self.placed@;
        proof {
            lemma_first_fit(s, w as nat, h as nat, self.width as nat);
        }
        let mut i: usize = 0;
        while i < self.shelves.len()
            invariant
                s == self.shelf_view(),
                p == self.placed@,
                self.width == old(self).width,
                self.height == old(self).height,
                self.pixels@ == old(self).pixels@,
                self.dirty_y0 == old(self).dirty_y0,
                self.dirty_y1 == old(self).dirty_y1,
                self.shelves@ == old(self).shelves@,
                i <= s.len(),
                forall|j: int| 0 <= j < i ==> !fits(#[trigger] s[j], w as nat, h as nat, self.width as nat),
            decreases s.len() - i,
        {
            let y = self.shelves[i].y;
            let sh = self.shelves[i].height;
            let x = self.shelves[i].x;
            assert(s[i as int] == self.shelves@[i as int]@);
            let fits_height = h <= sh && (h as u64) * 4 >= (sh as u64) * 3;
            if fits_height && (x as u64) + (w as u64) <= self.width as u64 {
                proof {
                    lemma_first_fit(s, w as nat, h as nat, self.width as nat);
                }
                assert(first_fit(s, w as nat, h as nat, self.width as nat) == i);
                assert forall|j: int|
                    0 <= j < s.len() && h <= (#[trigger] s[j]).height && h * 4 >= s[j].height * 3 && s[j].x + w
                        <= self.width && (forall|k: int|
                        0 <= k < j ==> !(h <= (#[trigger] s[k]).height && h * 4 >= s[k].height * 3 && s[k].x + w
                            <= self.width)) implies j == i by {
                    if j < i {
                        assert(!fits(s[j], w as nat, h as nat, self.width as nat));
                    } else if j > i {
                        assert(fits(s[i as int], w as nat, h as nat, self.width as nat));
                    }
                }
                self.shelves.set(i, Shelf { y, height: sh, x: x + w });
                let ghost rect = Rect { x: x as nat, y: y as nat, w: w as nat, h: h as nat };
                self.placed = Ghost(p.push((rect, i as int)));
                proof {
                    let s2 = self.shelf_view();
                    assert(s2 =~= s.update(i as int, ShelfView { y: y as nat, height: sh as nat, x: (x + w) as nat }));
                    assert forall|k: int| 0 <= k < p.len() implies disjoint(#[trigger] p[k].0, rect) by {
                        let j = p[k].1;
                        if j < i {
                            assert(s[j].y + s[j].height <= s[i as int].y);
                        } else if j > i {
                            assert(s[i as int].y + s[i as int].height <= s[j].y);
                        }
                    }
                    assert(self.placed() =~= old(self).placed().push(rect));
                    assert forall|k: int| 0 <= k < old(self).placed().len() implies disjoint(
                        #[trigger] old(self).placed()[k], rect) by {
                        assert(old(self).placed()[k] == p[k].0);
                    }
                }
                return Some((x, y));
            }
            i += 1;
        }
        assert(i == s.len());
        proof {
            lemma_first_fit(s, w as nat, h as nat, self.width as nat);
            let ff = first_fit(s, w as nat, h as nat, self.width as nat);
            if ff >= 0 {
                assert(fits(s[ff], w as nat, h as nat, self.width as nat));
                assert(!fits(s[ff], w as nat, h as nat, self.width as nat));
            }
            assert forall|j: int| 0 <= j < s.len() implies !(h <= (#[trigger] s[j]).height && h * 4
                >= s[j].height * 3 && s[j].x + w <= self.width) by {
                assert(!fits(s[j], w as nat, h as nat, self.width as nat));
            }
        }
        let n = self.shelves.len();
        let y: u32 = if n == 0 {
            0
        } else {
            assert(s[n - 1] == self.shelves@[n - 1]@);
            self.shelves[n - 1].y + self.shelves[n - 1].height
        };
        assert(y == next_row(s));
        if (y as u64) + (h as u64) > self.height as u64 {
            return None;
        }
        self.shelves.push(Shelf { y, height: h, x: w });
        let ghost rect = Rect { x: 0, y: y as nat, w: w as nat, h: h as nat };
        self.placed = Ghost(p.push((rect, n as int)));
        proof {
            let s2 = self.shelf_view();
            assert(s2 =~= s.push(ShelfView { y: y as nat, height: h as nat, x: w as nat }));
            assert forall|k: int| 0 <= k < p.len() implies disjoint(#[trigger] p[k].0, rect) by {
                let j = p[k].1;
                assert(s[j].y + s[j].height <= next_row(s));
            }
            assert(self.placed() =~= old(self).placed().push(rect));
            assert forall|k: int| 0 <= k < old(self).placed().len() implies disjoint(
                #[trigger] old(self).placed()[k], rect) by {
                assert(old(self).placed()[k] == p[k].0);
            }
        }
        Some((0, y))
    }
}


/// Whatever sequence of inserts and writes produced an atlas, the rectangles
/// it handed out lie inside it and no two of them share a texel.
pub proof fn lemma_placed_apart(a: &Atlas)
    requires
        a.wf(),
    ensures
        forall|i: int, j: int|
            0 <= i < j < a.placed().len() ==> disjoint(#[trigger] a.placed()[i], #[trigger] a.placed()[j]),
        forall|i: int|
            0 <= i < a.placed().len() ==> (#[trigger] a.placed()[i]).x + a.placed()[i].w <= a.spec_width()
                && a.placed()[i].y + a.placed()[i].h <= a.spec_height(),
{
    let p = a.placed@;
    let s = a.shelf_view();
    assert forall|i: int, j: int|
        0 <= i < j < a.placed().len() implies disjoint(#[trigger] a.placed()[i], #[trigger] a.placed()[j]) by {
        assert(a.placed()[i] == p[i].0);
        assert(a.placed()[j] == p[j].0);
    }
    assert forall|i: int| 0 <= i < a.placed().len() implies (#[trigger] a.placed()[i]).x + a.placed()[i].w
        <= a.spec_width() && a.placed()[i].y + a.placed()[i].h <= a.spec_height() by {
        assert(a.placed()[i] == p[i].0);
        let k = p[i].1;
        assert(0 <= k < s.len());
        assert(s[k].y + s[k].height <= next_row(s));
    }
}
} // verus!
