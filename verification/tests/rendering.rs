//! The rendering pipeline's verified pieces: the glyph-fit search, the ink
//! bounding box scan, the centering correction, and the JPEG transcode —
//! including the full probe-and-correct loop against the real rasterizer.

use ab_glyph::PxScale;
use image::{DynamicImage, Rgb, RgbImage, Rgba, RgbaImage};
use imageproc::drawing::{draw_text_mut, text_size};
use std::io::Read;

use manga_cleaner::render::{alpha_bbox, font_candidate_paths, pick_font, transcode_to_jpeg,
    CenterSearch, FitSearch, Font, TranscodeFailure};

#[test]
fn fit_search_finds_the_largest_fitting_size() {
    // A synthetic monotone rasterizer: a size-s rendering is 3s x 4s pixels.
    let extent = |s: u32| (3 * s, 4 * s);
    let mut fs = FitSearch::new(1000, 1500, 60);
    assert_eq!(fs.max_w, 880);
    assert_eq!(fs.max_h, 1320);
    while !fs.done {
        let size = fs.current_size();
        let (tw, th) = extent(size);
        fs.step(tw, th);
    }
    // Largest s with 3s <= 880 and 4s <= 1320 is 293.
    assert_eq!(fs.best, 293);
    let (bw, bh) = extent(fs.best);
    assert!(bw <= fs.max_w && bh <= fs.max_h);
}

#[test]
fn fit_search_never_goes_below_the_floor() {
    // Nothing fits: even the floor size overflows the margins.
    let mut fs = FitSearch::new(20, 20, 60);
    while !fs.done {
        let size = fs.current_size();
        fs.step(size * 50, size * 50);
    }
    assert_eq!(fs.best, 10);
}

#[test]
fn ink_bounding_box() {
    let w = 4u32;
    let h = 3u32;
    let mut data = vec![0u8; (4 * w * h) as usize];
    let at = |x: u32, y: u32| (4 * (y * w + x) + 3) as usize;
    data[at(1, 1)] = 255;
    data[at(2, 2)] = 7;
    assert_eq!(alpha_bbox(w, h, &data), Some((1, 1, 2, 2)));

    let blank = vec![0u8; (4 * w * h) as usize];
    assert_eq!(alpha_bbox(w, h, &blank), None);
}

#[test]
fn centering_correction_converges() {
    let mut cs = CenterSearch::new(100, 50);
    assert_eq!((cs.x, cs.y), (50, 25));
    assert_eq!(cs.rounds_left, 4);

    // First probe: the ink box sits up-left of center; the origin shifts by
    // the rounded delta.
    cs.step(Some((10, 5, 30, 15)));
    assert_eq!((cs.x, cs.y), (80, 40));
    assert!(!cs.done);

    // Second probe: dead center; the search stops without moving.
    cs.step(Some((30, 15, 70, 35)));
    assert!(cs.done);
    assert_eq!((cs.x, cs.y), (80, 40));
}

#[test]
fn centering_stops_without_ink() {
    let mut cs = CenterSearch::new(10, 10);
    cs.step(None);
    assert!(cs.done);
    assert_eq!((cs.x, cs.y), (5, 5));
}

#[test]
fn centering_gives_up_after_four_rounds() {
    let mut cs = CenterSearch::new(100, 100);
    for _ in 0..4 {
        assert!(!cs.done);
        // A pathological rasterizer that never centers.
        cs.step(Some((0, 0, 10, 10)));
    }
    assert!(cs.done);
}

#[test]
fn transcode_reencodes_as_jpeg() {
    let img = image::RgbImage::from_pixel(5, 7, image::Rgb([200, 100, 50]));
    let mut png: Vec<u8> = Vec::new();
    img.write_to(&mut std::io::Cursor::new(&mut png), image::ImageFormat::Png).unwrap();

    let out = transcode_to_jpeg(&png).expect("transcode");
    assert_ne!(out, png);
    let guessed = image::guess_format(&out).expect("format");
    assert_eq!(guessed, image::ImageFormat::Jpeg);
    let round = image::load_from_memory(&out).expect("decode");
    assert_eq!((round.width(), round.height()), (5, 7));

    let garbage = vec![1u8, 2, 3, 4];
    assert_eq!(transcode_to_jpeg(&garbage), Err(TranscodeFailure::Decode));

    // Decodable but wider than a baseline JPEG allows: the encode half fails.
    let wide = image::RgbImage::from_pixel(70000, 1, image::Rgb([1, 2, 3]));
    let mut wide_png: Vec<u8> = Vec::new();
    wide.write_to(&mut std::io::Cursor::new(&mut wide_png), image::ImageFormat::Png).unwrap();
    assert_eq!(transcode_to_jpeg(&wide_png), Err(TranscodeFailure::Encode));
}

#[test]
fn fit_search_clamps_oversized_margins() {
    // Half the dimension (or more) of margin on each side leaves only the
    // one-pixel floor in both axes.
    let fs = FitSearch::new(1000, 1500, 600);
    assert_eq!((fs.max_w, fs.max_h), (1, 1));
}

#[test]
fn font_selection() {
    let paths = font_candidate_paths();
    assert_eq!(paths.len(), 7);
    assert_eq!(paths[6], "/usr/share/fonts/truetype/dejavu/DejaVuSans-Bold.ttf");

    // Unreadable and unparseable candidates are skipped; with nothing usable
    // there is no font.
    let loaded: Vec<Option<Vec<u8>>> = vec![None, Some(vec![0u8, 1, 2, 3])];
    assert!(pick_font(&loaded).is_none());
}

/// A miniature rasterizer for the full probe-and-correct loop: "drawing" at
/// origin (x, y) inks a 21 x 11 block whose top-left sits 4 right and 7 down
/// of the origin, like a glyph's bearing offsets.
fn probe(w: u32, h: u32, x: i64, y: i64) -> Vec<u8> {
    let mut data = vec![0u8; (4 * w * h) as usize];
    for dy in 0..11i64 {
        for dx in 0..21i64 {
            let px = x + 4 + dx;
            let py = y + 7 + dy;
            if px >= 0 && py >= 0 && (px as u32) < w && (py as u32) < h {
                data[(4 * (py as u32 * w + px as u32) + 3) as usize] = 255;
            }
        }
    }
    data
}

#[test]
fn probe_loop_centers_the_ink_box() {
    let (w, h) = (100u32, 60u32);
    let mut cs = CenterSearch::new(w, h);
    let mut last_bbox = None;
    while !cs.done {
        let data = probe(w, h, cs.x, cs.y);
        let bbox = alpha_bbox(w, h, &data);
        last_bbox = bbox;
        cs.step(bbox);
    }
    let (x0, y0, x1, y1) = last_bbox.expect("ink");
    // The final ink box is dead-centered: its doubled midpoint equals the
    // image dimension, so its center is within half a pixel of the
    // geometric center.
    assert_eq!(x0 + x1, w);
    assert_eq!(y0 + y1, h);
}

/// Loads the bundled sans-bold typeface through the library's ranked
/// selection; the bytes come in through the image crate's file reader.
fn load_test_font() -> Font {
    let mut loaded: Vec<Option<Vec<u8>>> = Vec::new();
    for path in font_candidate_paths() {
        let bytes = image::ImageReader::open(&path).ok().and_then(|reader| {
            let mut buf = Vec::new();
            reader.into_inner().read_to_end(&mut buf).ok()?;
            Some(buf)
        });
        loaded.push(bytes);
    }
    pick_font(&loaded).expect("a usable font for cover rendering")
}

/// The host half of the rendering pipeline, exactly as the application
/// drives it: fit the size, probe-and-correct the origin, draw.
fn draw_dead_center_text(base: &DynamicImage, text: &str, opacity: u8, scale_percent: u32) -> DynamicImage {
    let mut rgba = base.to_rgba8();
    let (w, h) = rgba.dimensions();
    let font = load_test_font();
    let handle = font.handle().clone();

    let mut fit = FitSearch::new(w, h, 60);
    while !fit.done {
        let size = fit.current_size();
        let (tw, th) = text_size(PxScale::from(size as f32), &handle, text);
        fit.step(tw, th);
    }
    let font_size = ((fit.best * scale_percent) / 100).max(10);
    let px_scale = PxScale::from(font_size as f32);

    let mut search = CenterSearch::new(w, h);
    while !search.done {
        let mut probe = RgbaImage::from_pixel(w, h, Rgba([0, 0, 0, 0]));
        draw_text_mut(&mut probe, Rgba([0, 0, 0, 255]), search.x as i32, search.y as i32, px_scale, &handle, text);
        let bbox = alpha_bbox(w, h, probe.as_raw());
        search.step(bbox);
    }

    draw_text_mut(&mut rgba, Rgba([0, 0, 0, opacity]), search.x as i32, search.y as i32, px_scale, &handle, text);
    DynamicImage::ImageRgb8(DynamicImage::ImageRgba8(rgba).to_rgb8())
}

fn bbox_for_mask(mask: impl Iterator<Item = (u32, u32)>) -> Option<(u32, u32, u32, u32)> {
    let mut found = false;
    let mut min_x = u32::MAX;
    let mut min_y = u32::MAX;
    let mut max_x = 0;
    let mut max_y = 0;
    for (x, y) in mask {
        found = true;
        if x < min_x {
            min_x = x;
        }
        if y < min_y {
            min_y = y;
        }
        if x > max_x {
            max_x = x;
        }
        if y > max_y {
            max_y = y;
        }
    }
    if !found {
        return None;
    }
    Some((min_x, min_y, max_x, max_y))
}

fn center_of_bbox(b: (u32, u32, u32, u32)) -> (f32, f32) {
    let (x0, y0, x1, y1) = b;
    ((x0 + x1) as f32 / 2.0, (y0 + y1) as f32 / 2.0)
}

#[test]
fn centered_text_on_white_canvas() {
    let w = 1000;
    let h = 1500;
    let base = DynamicImage::ImageRgb8(RgbImage::from_pixel(w, h, Rgb([255, 255, 255])));
    let rendered = draw_dead_center_text(&base, "12", 255, 90);
    let rgb = rendered.to_rgb8();

    let bbox = bbox_for_mask(rgb.enumerate_pixels().filter_map(|(x, y, p)| {
        let [r, g, b] = p.0;
        if r < 250 || g < 250 || b < 250 {
            Some((x, y))
        } else {
            None
        }
    }))
    .expect("text pixels should exist");

    let (cx, cy) = center_of_bbox(bbox);
    assert!(
        (cx - (w as f32 / 2.0)).abs() <= 2.0,
        "x center mismatch: got {cx}, expected {}",
        w as f32 / 2.0
    );
    assert!(
        (cy - (h as f32 / 2.0)).abs() <= 2.0,
        "y center mismatch: got {cy}, expected {}",
        h as f32 / 2.0
    );
}
