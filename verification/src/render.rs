//! The numbered-cover rendering pipeline's verified core: font selection,
//! the glyph-fit size search, the ink bounding box scan, and the iterative
//! centering correction.
//!
//! Rasterization itself (drawing and measuring text) works in fractional
//! pixel scales, which this crate does not handle; the host performs those
//! calls and feeds each measurement or probe rendering back into the state
//! machines here, which make every decision.

use vstd::prelude::*;

use ab_glyph::FontArc;

verus! {

/// Declares `ab_glyph::FontArc` (an opaque parsed-typeface handle) so it
/// can appear in signatures and fields.
#[verifier::external_type_specification]
#[verifier::external_body]
pub struct ExFontArc(FontArc);

/// Whether `ab_glyph` accepts `bytes` as a font.
pub uninterp spec fn font_parses(bytes: Seq<u8>) -> bool;

/// Relies on `ab_glyph::FontArc::try_from_vec`: whether font data parses is a
/// pure function of the bytes.
#[verifier::external_body]
fn parse_font(data: Vec<u8>) -> (r: Option<FontArc>)
    ensures
        r.is_some() == font_parses(data@),
{
    match FontArc::try_from_vec(data) {
        Ok(f) => Some(f),
        Err(_) => None,
    }
}

/// A loaded typeface: the bytes it came from and the parsed rasterizer
/// handle.  Only `font_from_bytes` constructs values, so every `Font`'s
/// handle was parsed from exactly its `bytes()`.
pub struct Font {
    data: Vec<u8>,
    handle: FontArc,
}

impl Font {
    /// The raw bytes this font was parsed from.
    pub closed spec fn bytes(&self) -> Seq<u8> {
        self.data@
    }

    /// The parsed handle, for the host rasterizer.
    pub fn handle(&self) -> &FontArc {
        &self.handle
    }
}

/// Parses font data, keeping the bytes alongside the handle.
pub fn font_from_bytes(data: Vec<u8>) -> (r: Option<Font>)
    ensures
        r.is_some() == font_parses(data@),
        r matches Some(f) ==> f.bytes() == data@,
{
    let copy = data.clone();
    match parse_font(copy) {
        Some(handle) => Some(Font { data, handle }),
        None => None,
    }
}

/// The ranked list of typeface files tried for cover rendering: platform
/// bold/display faces first, a generic bold sans last.
pub fn font_candidate_paths() -> (r: Vec<String>)
    ensures
        r@.len() == 7,
        r@[0]@ == "/System/Library/Fonts/Supplemental/Arial Black.ttf"@,
        r@[1]@ == "/System/Library/Fonts/Supplemental/Arial Bold.ttf"@,
        r@[2]@ == "/System/Library/Fonts/Supplemental/Impact.ttf"@,
        r@[3]@ == "/System/Library/Fonts/Supplemental/Helvetica Bold.ttf"@,
        r@[4]@ == "/Library/Fonts/Arial Black.ttf"@,
        r@[5]@ == "/Library/Fonts/Arial Bold.ttf"@,
        r@[6]@ == "/usr/share/fonts/truetype/dejavu/DejaVuSans-Bold.ttf"@,
{
    let mut v: Vec<String> = Vec::new();
    v.push("/System/Library/Fonts/Supplemental/Arial Black.ttf".to_owned());
    v.push("/System/Library/Fonts/Supplemental/Arial Bold.ttf".to_owned());
    v.push("/System/Library/Fonts/Supplemental/Impact.ttf".to_owned());
    v.push("/System/Library/Fonts/Supplemental/Helvetica Bold.ttf".to_owned());
    v.push("/Library/Fonts/Arial Black.ttf".to_owned());
    v.push("/Library/Fonts/Arial Bold.ttf".to_owned());
    v.push("/usr/share/fonts/truetype/dejavu/DejaVuSans-Bold.ttf".to_owned());
    v
}

/// Candidate `i` was readable and parses as a font.
pub open spec fn usable_candidate(loaded: Seq<Option<Vec<u8>>>, i: int) -> bool {
    loaded[i] matches Some(b) && font_parses(b@)
}

/// The first readable, parseable candidate font, or `None` when no candidate
/// is usable.  `loaded` holds, for each ranked candidate path, the file's
/// bytes, or `None` where it did not exist or could not be read.
pub fn pick_font(loaded: &Vec<Option<Vec<u8>>>) -> (r: Option<Font>)
    ensures
        r is None ==> forall|i: int| 0 <= i < loaded@.len() ==> !usable_candidate(loaded@, i),
        r matches Some(f) ==> exists|i: int|
            0 <= i < loaded@.len() && #[trigger] usable_candidate(loaded@, i) && (forall|j: int|
                0 <= j < i ==> !usable_candidate(loaded@, j)) && (loaded@[i] matches Some(b)
                && f.bytes() == b@),
{
    let mut i: usize = 0;
    while i < loaded.len()
        invariant
            i <= loaded@.len(),
            forall|j: int| 0 <= j < i ==> !usable_candidate(loaded@, j),
        decreases loaded@.len() - i,
    {
        match &loaded[i] {
            Some(bytes) => {
                let copy = bytes.clone();
                match font_from_bytes(copy) {
                    Some(f) => {
                        assert(usable_candidate(loaded@, i as int));
                        return Some(f);
                    },
                    None => {
                        assert(!usable_candidate(loaded@, i as int));
                    },
                }
            },
            None => {
                assert(!usable_candidate(loaded@, i as int));
            },
        }
        i = i + 1;
    }
    None
}

/// Binary search for the largest font size whose measured text extent fits
/// inside the margins.  The host measures the text at `current_size()` and
/// hands the extent to `step`, until `done`.
pub struct FitSearch {
    pub lo: u32,
    pub hi: u32,
    pub best: u32,
    pub max_w: u32,
    pub max_h: u32,
    pub done: bool,
    /// Every measurement fed to the search: `(size, width, height)`.
    pub trace: Ghost<Seq<(u32, u32, u32)>>,
}

impl FitSearch {
    /// `best` is the floor size, or some fed measurement at `best` fit.
    pub open spec fn wf(self) -> bool {
        &&& 10 <= self.lo
        &&& self.done == (self.lo > self.hi)
        &&& (self.best == 10 || exists|k: int|
            0 <= k < self.trace@.len() && (#[trigger] self.trace@[k]).0 == self.best
                && self.trace@[k].1 <= self.max_w && self.trace@[k].2 <= self.max_h)
    }

    /// The margin-reduced limit for a dimension `d`, at least one pixel; a
    /// margin of half or more leaves only that one-pixel floor.
    pub open spec fn margin_limit(d: u32, margin_permille: u32) -> int {
        let f: int = if margin_permille >= 500 {
            0
        } else {
            1000 - 2 * margin_permille
        };
        let v = d as int * f / 1000;
        if v >= 1 {
            v
        } else {
            1
        }
    }

    /// The initial upper search bound: five times the larger dimension,
    /// saturated to `u32`, at least the floor size.
    pub open spec fn initial_hi(w: u32, h: u32) -> int {
        let m: int = if w >= h {
            w as int
        } else {
            h as int
        };
        if 5 * m > u32::MAX as int {
            u32::MAX as int
        } else if 5 * m < 10 {
            10
        } else {
            5 * m
        }
    }

    /// Starts the search for a `w x h` rectangle with the given margin on
    /// every side, in thousandths of the dimension.
    pub fn new(w: u32, h: u32, margin_permille: u32) -> (r: FitSearch)
        ensures
            r.wf(),
            !r.done,
            r.lo == 10,
            r.best == 10,
            r.max_w as int == FitSearch::margin_limit(w, margin_permille),
            r.max_h as int == FitSearch::margin_limit(h, margin_permille),
            r.hi as int == FitSearch::initial_hi(w, h),
            r.trace@ == Seq::<(u32, u32, u32)>::empty(),
    {
        let factor: u64 = if margin_permille >= 500 {
            0
        } else {
            (1000 - 2 * margin_permille) as u64
        };
        proof {
            assert((w as int) * (factor as int) <= (u32::MAX as int) * 1000 && 0 <= (w as int) * (
            factor as int) && (h as int) * (factor as int) <= (u32::MAX as int) * 1000 && 0 <= (
            h as int) * (factor as int)) by (nonlinear_arith)
                requires
                    factor <= 1000,
                    w <= u32::MAX,
                    h <= u32::MAX,
            ;
        }
        let mw64: u64 = (w as u64) * factor / 1000;
        let mh64: u64 = (h as u64) * factor / 1000;
        proof {
            assert(mw64 <= w as u64 && mh64 <= h as u64) by (nonlinear_arith)
                requires
                    mw64 == (w as int) * (factor as int) / 1000,
                    mh64 == (h as int) * (factor as int) / 1000,
                    factor <= 1000,
            ;
        }
        let max_w: u32 = if mw64 >= 1 {
            mw64 as u32
        } else {
            1
        };
        let max_h: u32 = if mh64 >= 1 {
            mh64 as u32
        } else {
            1
        };
        let m: u32 = if w >= h {
            w
        } else {
            h
        };
        let m5: u32 = if m > u32::MAX / 5 {
            u32::MAX
        } else {
            m * 5
        };
        let hi: u32 = if m5 < 10 {
            10
        } else {
            m5
        };
        FitSearch { lo: 10, hi, best: 10, max_w, max_h, done: false, trace: Ghost(Seq::empty()) }
    }

    /// The size the host should measure next.
    pub fn current_size(&self) -> (r: u32)
        requires
            self.wf(),
            !self.done,
        ensures
            r as int == (self.lo + self.hi) as int / 2,
            self.lo <= r <= self.hi,
    {
        (((self.lo as u64) + (self.hi as u64)) / 2) as u32
    }

    /// Feeds the measured extent `(tw, th)` of the text at `current_size()`:
    /// a fitting extent records the size and searches above it, an
    /// overflowing one searches below it.
    pub fn step(&mut self, tw: u32, th: u32)
        requires
            old(self).wf(),
            !old(self).done,
        ensures
            final(self).wf(),
            final(self).max_w == old(self).max_w,
            final(self).max_h == old(self).max_h,
            final(self).trace@ == old(self).trace@.push(
                (((old(self).lo + old(self).hi) as int / 2) as u32, tw, th),
            ),
            ({
                let mid = ((old(self).lo + old(self).hi) as int / 2) as u32;
                let lo_up: int = if mid as int + 1 > u32::MAX as int {
                    u32::MAX as int
                } else {
                    mid as int + 1
                };
                if tw <= old(self).max_w && th <= old(self).max_h {
                    final(self).best == mid && final(self).hi == old(self).hi && final(self).lo
                        as int == lo_up
                } else {
                    final(self).best == old(self).best && final(self).lo == old(self).lo
                        && final(self).hi as int == mid as int - 1
                }
            }),
    {
        let mid: u32 = (((self.lo as u64) + (self.hi as u64)) / 2) as u32;
        proof {
            self.trace@ = self.trace@.push((mid, tw, th));
        }
        if tw <= self.max_w && th <= self.max_h {
            self.best = mid;
            self.lo = if mid == u32::MAX {
                u32::MAX
            } else {
                mid + 1
            };
        } else {
            self.hi = mid - 1;
        }
        self.done = self.lo > self.hi;
        proof {
            let t = self.trace@;
            assert(t[t.len() - 1] == (mid, tw, th));
            if self.best == mid && (tw <= self.max_w && th <= self.max_h) {
                assert(t[t.len() - 1].0 == self.best && t[t.len() - 1].1 <= self.max_w && t[t.len()
                    - 1].2 <= self.max_h);
            }
            if old(self).best != 10 && self.best == old(self).best {
                let k = choose|k: int|
                    0 <= k < old(self).trace@.len() && (#[trigger] old(self).trace@[k]).0 == old(
                        self,
                    ).best && old(self).trace@[k].1 <= old(self).max_w && old(self).trace@[k].2
                        <= old(self).max_h;
                assert(t[k] == old(self).trace@[k]);
            }
        }
    }
}

/// The size the search settled on never overflows the margins: whenever the
/// fed measurements are consistent with a single extent function that is
/// non-decreasing in the size (as rasterizers are), and any size of at least
/// the floor fits, the returned `best` size fits.
pub proof fn lemma_fit_result_fits(s: FitSearch, extent: spec_fn(u32) -> (u32, u32))
    requires
        s.wf(),
        forall|k: int|
            0 <= k < s.trace@.len() ==> (#[trigger] s.trace@[k]).1 == extent(s.trace@[k].0).0
                && s.trace@[k].2 == extent(s.trace@[k].0).1,
        forall|a: u32, b: u32|
            a <= b ==> (#[trigger] extent(a)).0 <= (#[trigger] extent(b)).0 && extent(a).1
                <= extent(b).1,
        exists|sz: u32| sz >= 10 && (#[trigger] extent(sz)).0 <= s.max_w && extent(sz).1 <= s.max_h,
    ensures
        extent(s.best).0 <= s.max_w,
        extent(s.best).1 <= s.max_h,
{
    let sz = choose|sz: u32|
        sz >= 10 && (#[trigger] extent(sz)).0 <= s.max_w && extent(sz).1 <= s.max_h;
    assert(extent(10u32).0 <= extent(sz).0 && extent(10u32).1 <= extent(sz).1);
    if s.best != 10 {
        let k = choose|k: int|
            0 <= k < s.trace@.len() && (#[trigger] s.trace@[k]).0 == s.best && s.trace@[k].1
                <= s.max_w && s.trace@[k].2 <= s.max_h;
        assert(extent(s.best).0 == s.trace@[k].1);
    }
}

/// The alpha value at pixel `(x, y)` of row-major RGBA data is non-zero.
pub open spec fn ink_at(data: Seq<u8>, w: int, x: int, y: int) -> bool {
    data[4 * (y * w + x) + 3] != 0
}

///`(a, b)` comes before `(x, y)` in row-major scan order.
pub open spec fn scanned_before(w: int, x: int, y: int, a: int, b: int) -> bool {
    0 <= a < w && 0 <= b && (b < y || (b == y && a < x))
}

/// Some pixel of column `x` carries ink.
pub open spec fn ink_in_col(data: Seq<u8>, w: int, h: int, x: int) -> bool {
    exists|b: int| 0 <= b < h && #[trigger] ink_at(data, w, x, b)
}

/// Some pixel of row `y` carries ink.
pub open spec fn ink_in_row(data: Seq<u8>, w: int, h: int, y: int) -> bool {
    exists|a: int| 0 <= a < w && #[trigger] ink_at(data, w, a, y)
}

/// The bounding box of pixels with non-zero alpha in a `w x h` RGBA bitmap:
/// `None` when no such pixel exists, else `(min x, min y, max x, max y)`.
#[verifier::rlimit(100)]
pub fn alpha_bbox(w: u32, h: u32, data: &Vec<u8>) -> (r: Option<(u32, u32, u32, u32)>)
    requires
        data@.len() == 4 * (w as int) * (h as int),
    ensures
        r is None ==> forall|a: int, b: int|
            0 <= a < w && 0 <= b < h ==> !#[trigger] ink_at(data@, w as int, a, b),
        r matches Some(bb) ==> bb.0 <= bb.2 < w && bb.1 <= bb.3 < h,
        r matches Some(bb) ==> forall|a: int, b: int|
            0 <= a < w && 0 <= b < h && #[trigger] ink_at(data@, w as int, a, b) ==> bb.0 <= a
                <= bb.2 && bb.1 <= b <= bb.3,
        r matches Some(bb) ==> ink_in_col(data@, w as int, h as int, bb.0 as int) && ink_in_col(
            data@,
            w as int,
            h as int,
            bb.2 as int,
        ),
        r matches Some(bb) ==> ink_in_row(data@, w as int, h as int, bb.1 as int) && ink_in_row(
            data@,
            w as int,
            h as int,
            bb.3 as int,
        ),
{
    let total: usize = data.len();
    let mut found = false;
    let mut min_x: u32 = 0;
    let mut min_y: u32 = 0;
    let mut max_x: u32 = 0;
    let mut max_y: u32 = 0;
    let mut y: u32 = 0;
    while y < h
        invariant
            0 <= y <= h,
            total == data@.len(),
            data@.len() == 4 * (w as int) * (h as int),
            !found ==> forall|a: int, b: int|
                scanned_before(w as int, 0, y as int, a, b) ==> !#[trigger] ink_at(
                    data@,
                    w as int,
                    a,
                    b,
                ),
            found ==> {
                &&& min_x <= max_x < w
                &&& min_y <= max_y < y
                &&& forall|a: int, b: int|
                    scanned_before(w as int, 0, y as int, a, b) && #[trigger] ink_at(
                        data@,
                        w as int,
                        a,
                        b,
                    ) ==> min_x <= a <= max_x && min_y <= b <= max_y
                &&& exists|b: int|
                    0 <= b < y && #[trigger] ink_at(data@, w as int, min_x as int, b)
                &&& exists|b: int|
                    0 <= b < y && #[trigger] ink_at(data@, w as int, max_x as int, b)
                &&& exists|a: int|
                    0 <= a < w && #[trigger] ink_at(data@, w as int, a, min_y as int)
                &&& exists|a: int|
                    0 <= a < w && #[trigger] ink_at(data@, w as int, a, max_y as int)
            },
        decreases h - y,
    {
        let mut x: u32 = 0;
        while x < w
            invariant
                0 <= x <= w,
                0 <= y < h,
                total == data@.len(),
                data@.len() == 4 * (w as int) * (h as int),
                !found ==> forall|a: int, b: int|
                    scanned_before(w as int, x as int, y as int, a, b) ==> !#[trigger] ink_at(
                        data@,
                        w as int,
                        a,
                        b,
                    ),
                found ==> {
                    &&& min_x <= max_x < w
                    &&& min_y <= max_y <= y
                    &&& forall|a: int, b: int|
                        scanned_before(w as int, x as int, y as int, a, b) && #[trigger] ink_at(
                            data@,
                            w as int,
                            a,
                            b,
                        ) ==> min_x <= a <= max_x && min_y <= b <= max_y
                    &&& exists|b: int|
                        0 <= b <= y && #[trigger] ink_at(data@, w as int, min_x as int, b)
                    &&& exists|b: int|
                        0 <= b <= y && #[trigger] ink_at(data@, w as int, max_x as int, b)
                    &&& exists|a: int|
                        0 <= a < w && #[trigger] ink_at(data@, w as int, a, min_y as int)
                    &&& exists|a: int|
                        0 <= a < w && #[trigger] ink_at(data@, w as int, a, max_y as int)
                },
            decreases w - x,
        {
            proof {
                assert(0 <= (y as int) * (w as int) + (x as int) && 4 * ((y as int) * (w as int) + (
                x as int)) + 3 < 4 * (w as int) * (h as int)) by (nonlinear_arith)
                    requires
                        0 <= (x as int) < (w as int),
                        0 <= (y as int) < (h as int),
                ;
            }
            let idx: usize = 4 * ((y as usize) * (w as usize) + (x as usize)) + 3;
            if data[idx] != 0 {
                assert(ink_at(data@, w as int, x as int, y as int));
                if !found {
                    found = true;
                    min_x = x;
                    max_x = x;
                    min_y = y;
                    max_y = y;
                } else {
                    if x < min_x {
                        min_x = x;
                    }
                    if x > max_x {
                        max_x = x;
                    }
                    if y < min_y {
                        min_y = y;
                    }
                    if y > max_y {
                        max_y = y;
                    }
                }
            } else {
                assert(!ink_at(data@, w as int, x as int, y as int));
            }
            x = x + 1;
        }
        y = y + 1;
    }
    proof {
        if !found {
            assert forall|a: int, b: int| 0 <= a < w && 0 <= b < h implies !#[trigger] ink_at(
                data@,
                w as int,
                a,
                b,
            ) by {
                assert(scanned_before(w as int, 0, h as int, a, b));
                assert(ink_at(data@, w as int, a, b) || !ink_at(data@, w as int, a, b));
            }
        } else {
            assert forall|a: int, b: int|
                0 <= a < w && 0 <= b < h && #[trigger] ink_at(data@, w as int, a, b) implies min_x
                <= a <= max_x && min_y <= b <= max_y by {
                assert(scanned_before(w as int, 0, h as int, a, b));
            }
            let b0 = choose|b: int|
                0 <= b < y && #[trigger] ink_at(data@, w as int, min_x as int, b);
            assert(0 <= b0 < h && ink_at(data@, w as int, min_x as int, b0));
            assert(ink_in_col(data@, w as int, h as int, min_x as int));
            let b1 = choose|b: int|
                0 <= b < y && #[trigger] ink_at(data@, w as int, max_x as int, b);
            assert(0 <= b1 < h && ink_at(data@, w as int, max_x as int, b1));
            assert(ink_in_col(data@, w as int, h as int, max_x as int));
            let a0 = choose|a: int|
                0 <= a < w && #[trigger] ink_at(data@, w as int, a, min_y as int);
            assert(ink_in_row(data@, w as int, h as int, min_y as int));
            let a1 = choose|a: int|
                0 <= a < w && #[trigger] ink_at(data@, w as int, a, max_y as int);
            assert(ink_in_row(data@, w as int, h as int, max_y as int));
        }
    }
    if found {
        Some((min_x, min_y, max_x, max_y))
    } else {
        None
    }
}

/// Rounds `t / 2` to the nearest integer, halves away from zero.
pub open spec fn round_half(t: int) -> int {
    if t >= 0 {
        (t + 1) / 2
    } else {
        -((-t + 1) / 2)
    }
}

/// The probe-and-correct placement loop: starting from the geometric center,
/// each probe rendering's ink bounding box shifts the draw origin by the
/// rounded delta between the box center and the image center, for at most
/// four rounds.
pub struct CenterSearch {
    pub w: u32,
    pub h: u32,
    pub x: i64,
    pub y: i64,
    pub rounds_left: u8,
    pub done: bool,
}

impl CenterSearch {
    pub open spec fn wf(self) -> bool {
        &&& self.rounds_left <= 4
        &&& -((5 - self.rounds_left as int) * (self.w as int)) - 1 <= self.x <= (5
            - self.rounds_left as int) * (self.w as int) + 1
        &&& -((5 - self.rounds_left as int) * (self.h as int)) - 1 <= self.y <= (5
            - self.rounds_left as int) * (self.h as int) + 1
    }

    /// Starts at the rounded geometric center of a `w x h` image.
    pub fn new(w: u32, h: u32) -> (r: CenterSearch)
        ensures
            r.wf(),
            !r.done,
            r.w == w,
            r.h == h,
            r.rounds_left == 4,
            r.x == round_half(w as int),
            r.y == round_half(h as int),
    {
        let x: i64 = (((w as u64) + 1) / 2) as i64;
        let y: i64 = (((h as u64) + 1) / 2) as i64;
        proof {
            assert((5 - 4int) * (w as int) == w as int && (5 - 4int) * (h as int) == h as int)
                by (nonlinear_arith);
        }
        CenterSearch { w, h, x, y, rounds_left: 4, done: false }
    }

    /// Feeds the ink bounding box of a probe rendering at origin `(x, y)`:
    /// no ink or a centered box ends the search, otherwise the origin shifts
    /// by the rounded center delta and a round is consumed.
    pub fn step(&mut self, bbox: Option<(u32, u32, u32, u32)>)
        requires
            old(self).wf(),
            !old(self).done,
            old(self).rounds_left > 0,
            bbox matches Some(bb) ==> bb.0 <= bb.2 < old(self).w && bb.1 <= bb.3 < old(self).h,
        ensures
            final(self).wf(),
            final(self).w == old(self).w && final(self).h == old(self).h,
            match bbox {
                None => final(self).done && final(self).x == old(self).x && final(self).y == old(
                    self,
                ).y && final(self).rounds_left == old(self).rounds_left,
                Some(bb) => {
                    let dx = round_half(old(self).w - bb.0 - bb.2);
                    let dy = round_half(old(self).h - bb.1 - bb.3);
                    &&& final(self).rounds_left == old(self).rounds_left - 1
                    &&& (if dx == 0 && dy == 0 {
                        final(self).done && final(self).x == old(self).x && final(self).y == old(
                            self,
                        ).y
                    } else {
                        final(self).x == old(self).x + dx && final(self).y == old(self).y + dy
                            && final(self).done == (final(self).rounds_left == 0)
                    })
                },
            },
    {
        proof {
            let rl0 = old(self).rounds_left as int;
            let ww = old(self).w as int;
            let hh = old(self).h as int;
            assert((5 - rl0) * ww + ww == (5 - (rl0 - 1)) * ww && (5 - rl0) * hh + hh == (5 - (rl0
                - 1)) * hh) by (nonlinear_arith);
            assert(0 <= (5 - rl0) * ww <= 5 * (u32::MAX as int) && 0 <= (5 - rl0) * hh <= 5 * (
            u32::MAX as int) && 0 <= (5 - (rl0 - 1)) * ww <= 5 * (u32::MAX as int) && 0 <= (5 - (
            rl0 - 1)) * hh <= 5 * (u32::MAX as int)) by (nonlinear_arith)
                requires
                    0 < rl0 <= 4,
                    0 <= ww <= u32::MAX as int,
                    0 <= hh <= u32::MAX as int,
            ;
        }
        match bbox {
            None => {
                self.done = true;
            },
            Some(bb) => {
                let tx: i64 = (self.w as i64) - (bb.0 as i64) - (bb.2 as i64);
                let ty: i64 = (self.h as i64) - (bb.1 as i64) - (bb.3 as i64);
                let dx: i64 = if tx >= 0 {
                    (tx + 1) / 2
                } else {
                    -((-tx + 1) / 2)
                };
                let dy: i64 = if ty >= 0 {
                    (ty + 1) / 2
                } else {
                    -((-ty + 1) / 2)
                };
                self.rounds_left = self.rounds_left - 1;
                if dx == 0 && dy == 0 {
                    self.done = true;
                } else {
                    self.x = self.x + dx;
                    self.y = self.y + dy;
                    self.done = self.rounds_left == 0;
                }
            },
        }
    }
}

/// When the correction loop stops because the delta rounds to zero, the ink
/// bounding box is exactly centered: doubled, its midpoint equals the image
/// dimension in both axes.
pub proof fn lemma_centered_on_convergence(w: u32, h: u32, bb: (u32, u32, u32, u32))
    requires
        round_half(w - bb.0 - bb.2) == 0,
        round_half(h - bb.1 - bb.3) == 0,
    ensures
        bb.0 + bb.2 == w,
        bb.1 + bb.3 == h,
{
}

/// Whether `image` decodes `bytes` as a picture.
pub uninterp spec fn decodes_ok(bytes: Seq<u8>) -> bool;

/// Whether the decoded, RGB-flattened picture encodes as a baseline JPEG
/// (encoding rejects, for instance, dimensions above what JPEG allows).
pub uninterp spec fn encodes_ok(bytes: Seq<u8>) -> bool;

/// The baseline JPEG at quality 95 of the decoded picture, flattened to RGB.
pub uninterp spec fn jpeg95_of(bytes: Seq<u8>) -> Seq<u8>;

/// Which half of a transcode failed.
#[derive(Debug, Clone, Copy, PartialEq, Eq, Structural)]
pub enum TranscodeFailure {
    /// The bytes are not a decodable picture.
    Decode,
    /// The picture decoded but does not encode as a baseline JPEG.
    Encode,
}

/// Relies on `image::load_from_memory` (format-guessing decode) and
/// `image::codecs::jpeg::JpegEncoder::new_with_quality(.., 95)` via
/// `encode_image` on the RGB-flattened picture: decode success, encode
/// success and the encoded bytes are all pure functions of the input bytes.
#[verifier::external_body]
pub fn transcode_to_jpeg(bytes: &Vec<u8>) -> (r: Result<Vec<u8>, TranscodeFailure>)
    ensures
        r matches Ok(out) ==> decodes_ok(bytes@) && encodes_ok(bytes@) && out@ == jpeg95_of(
            bytes@,
        ),
        r is Err <==> !(decodes_ok(bytes@) && encodes_ok(bytes@)),
        r matches Err(f) ==> (f == TranscodeFailure::Decode <==> !decodes_ok(bytes@)),
{
    let img = match image::load_from_memory(bytes.as_slice()) {
        Ok(i) => i,
        Err(_) => return Err(TranscodeFailure::Decode),
    };
    let rgb = image::DynamicImage::ImageRgb8(img.to_rgb8());
    let mut out: Vec<u8> = Vec::new();
    let mut enc = image::codecs::jpeg::JpegEncoder::new_with_quality(&mut out, 95);
    match enc.encode_image(&rgb) {
        Ok(()) => Ok(out),
        Err(_) => Err(TranscodeFailure::Encode),
    }
}

} // verus!
