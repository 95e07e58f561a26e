//! The cover resolution protocol, driven through concrete event sequences.

use manga_cleaner::resolve::{choose_series_cover, ensure_series_cover, find_first_volume_cover,
    find_remote_cover, normalize_title, select_volumes, select_zip_images,
    start_cover_resolution, CoverResult, DirEntry, ResolveAction, ResolveEvent, ZipEntry};

fn file(name: &str) -> DirEntry {
    DirEntry { name: name.to_string(), is_file: true }
}

fn png_bytes() -> Vec<u8> {
    let img = image::RgbImage::from_pixel(4, 6, image::Rgb([10, 20, 30]));
    let mut png: Vec<u8> = Vec::new();
    img.write_to(&mut std::io::Cursor::new(&mut png), image::ImageFormat::Png).unwrap();
    png
}

#[test]
fn natural_order_of_volumes() {
    let entries = vec![
        file("vol10.cbz"),
        file("vol2.cbz"),
        file(".hidden.cbz"),
        file("cover.jpg"),
        DirEntry { name: "subdir.cbz".to_string(), is_file: false },
    ];
    let vols = select_volumes(&entries);
    assert_eq!(vols, vec!["vol2.cbz".to_string(), "vol10.cbz".to_string()]);
}

#[test]
fn first_volume_wins_even_with_a_cover_present() {
    // The folder holds both a cover.jpg and a valid first volume: the
    // resolver must go for the archive, never the local file.
    let (r, action) = start_cover_resolution("/lib/Series".to_string(), "Series".to_string());
    assert!(matches!(action, ResolveAction::ListSeriesDir));

    let listing = vec![file("cover.jpg"), file("Series v01.cbz"), file("Series v02.cbz")];
    let (r, out) = ensure_series_cover(r, ResolveEvent::SeriesListing(Ok(listing)));
    match &out.action {
        ResolveAction::ListArchive { path } => assert_eq!(path, "/lib/Series/Series v01.cbz"),
        other => panic!("expected the archive listing, got {other:?}"),
    }

    let entries = vec![
        ZipEntry { name: "z10.jpg".to_string(), is_dir: false },
        ZipEntry { name: "z2.jpg".to_string(), is_dir: false },
        ZipEntry { name: "__MACOSX/z1.jpg".to_string(), is_dir: false },
        ZipEntry { name: "inner/".to_string(), is_dir: true },
    ];
    let (r, out) = ensure_series_cover(r, ResolveEvent::ArchiveEntries(Ok(entries)));
    let sel = match out.action {
        ResolveAction::ExtractEntry { res } => res,
        other => panic!("expected extraction, got {other:?}"),
    };
    assert_eq!(sel.volume_file, "/lib/Series/Series v01.cbz");
    assert_eq!(sel.image_entry, "z2.jpg");
    assert_eq!(sel.output_file, "/lib/Series/cover.jpg");

    let png = png_bytes();
    let (r, out) = ensure_series_cover(r, ResolveEvent::EntryBytes(Ok(png.clone())));
    let data = match out.action {
        ResolveAction::WriteFile { path, data } => {
            assert_eq!(path, "/lib/Series/cover.jpg");
            data
        },
        other => panic!("expected the cover write, got {other:?}"),
    };
    // The written bytes are a real re-encoding, not the input handed back.
    assert_ne!(data, png);
    let round = image::load_from_memory(&data).expect("decode transcoded cover");
    assert_eq!(round.width(), 4);
    assert_eq!(round.height(), 6);

    let (_r, out) = ensure_series_cover(r, ResolveEvent::WriteDone(Ok(())));
    match out.action {
        ResolveAction::Finish { cover } => {
            assert_eq!(cover.unwrap().as_deref(), Some("/lib/Series/cover.jpg"));
        },
        other => panic!("expected the finish, got {other:?}"),
    }
    assert_eq!(
        out.logs,
        vec![
            "[COVER] Extracted series cover from first volume: /lib/Series/cover.jpg \
             (source=Series v01.cbz:z2.jpg)"
                .to_string()
        ]
    );
}

#[test]
fn unsupported_first_volume_records_a_soft_error() {
    let (r, _) = start_cover_resolution("/lib/S".to_string(), "S".to_string());
    let listing = vec![file("S v01.CBR"), file("S v02.cbz")];
    let (r, out) = ensure_series_cover(r, ResolveEvent::SeriesListing(Ok(listing)));
    assert!(matches!(out.action, ResolveAction::ProbeLocalCovers));
    assert_eq!(
        r.first_vol_err.as_deref(),
        Some("first volume is .cbr (local extraction currently supports .cbz/.zip only)")
    );
}

#[test]
fn all_sources_exhausted_yields_no_cover_with_warnings() {
    let (r, _) = start_cover_resolution("/lib/S".to_string(), "Some Manga".to_string());
    let (r, out) = ensure_series_cover(r, ResolveEvent::SeriesListing(Ok(Vec::new())));
    assert!(matches!(out.action, ResolveAction::ProbeLocalCovers));

    let (r, out) = ensure_series_cover(r, ResolveEvent::LocalFlags(vec![false; 6]));
    assert!(matches!(out.action, ResolveAction::ListSeriesDirForImages));

    let (r, out) = ensure_series_cover(r, ResolveEvent::LocalListing(Ok(Vec::new())));
    match &out.action {
        ResolveAction::QueryProvider { index, title } => {
            assert_eq!(*index, 0);
            assert_eq!(title, "Some Manga");
        },
        other => panic!("expected the first provider, got {other:?}"),
    }

    let (r, out) = ensure_series_cover(r, ResolveEvent::ProviderReply(Ok(None)));
    assert!(matches!(out.action, ResolveAction::QueryProvider { index: 1, .. }));
    let (r, out) = ensure_series_cover(
        r,
        ResolveEvent::ProviderReply(Err("transport failure".to_string())),
    );
    assert!(matches!(out.action, ResolveAction::QueryProvider { index: 2, .. }));
    let (_r, out) = ensure_series_cover(r, ResolveEvent::ProviderReply(Ok(None)));
    match out.action {
        ResolveAction::Finish { cover } => assert_eq!(cover.unwrap(), None),
        other => panic!("expected the finish, got {other:?}"),
    }
    assert_eq!(
        out.logs,
        vec!["[WARN] Failed to download series cover. Last error: transport failure".to_string()]
    );
}

#[test]
fn provider_hit_is_downloaded() {
    let (r, _) = start_cover_resolution("/lib/S".to_string(), "S".to_string());
    let (r, _) = ensure_series_cover(r, ResolveEvent::SeriesListing(Ok(Vec::new())));
    let (r, _) = ensure_series_cover(r, ResolveEvent::LocalFlags(vec![false; 6]));
    let (r, _) = ensure_series_cover(r, ResolveEvent::LocalListing(Ok(Vec::new())));
    let hit = CoverResult {
        source: "remote-b".to_string(),
        url: "https://example.invalid/c.jpg".to_string(),
    };
    let (r, out) = ensure_series_cover(r, ResolveEvent::ProviderReply(Ok(Some(hit))));
    match &out.action {
        ResolveAction::Download { url, path } => {
            assert_eq!(url, "https://example.invalid/c.jpg");
            assert_eq!(path, "/lib/S/cover.jpg");
        },
        other => panic!("expected the download, got {other:?}"),
    }
    let (_r, out) = ensure_series_cover(r, ResolveEvent::DownloadDone(Ok(())));
    match out.action {
        ResolveAction::Finish { cover } => {
            assert_eq!(cover.unwrap().as_deref(), Some("/lib/S/cover.jpg"));
        },
        other => panic!("expected the finish, got {other:?}"),
    }
    assert_eq!(
        out.logs,
        vec!["[COVER] Downloaded series cover: /lib/S/cover.jpg (source=remote-b)".to_string()]
    );
}

#[test]
fn ranked_local_covers_beat_other_images() {
    let entries = vec![file("zz01.png"), file("aa02.jpg")];
    let flags = vec![false, false, true, false, false, false];
    let chosen = choose_series_cover("/lib/S", &flags, &entries);
    assert_eq!(chosen.as_deref(), Some("/lib/S/cover.png"));

    let none_ranked = vec![false; 6];
    let chosen2 = choose_series_cover("/lib/S", &none_ranked, &entries);
    assert_eq!(chosen2.as_deref(), Some("/lib/S/aa02.jpg"));

    let empty: Vec<DirEntry> = Vec::new();
    assert_eq!(choose_series_cover("/lib/S", &none_ranked, &empty), None);
}

#[test]
fn first_volume_selection() {
    let entries = vec![file("S v2.cbz"), file("S v1.cbz")];
    let (vol, err) = find_first_volume_cover("/lib/S", &entries);
    assert_eq!(vol.as_deref(), Some("S v1.cbz"));
    assert_eq!(err, None);

    let none: Vec<DirEntry> = Vec::new();
    assert_eq!(find_first_volume_cover("/lib/S", &none), (None, None));
}

#[test]
fn zip_image_selection() {
    let entries = vec![
        ZipEntry { name: "b.txt".to_string(), is_dir: false },
        ZipEntry { name: "10.jpg".to_string(), is_dir: false },
        ZipEntry { name: "2.jpg".to_string(), is_dir: false },
    ];
    let imgs = select_zip_images(&entries);
    assert_eq!(imgs, vec!["2.jpg".to_string(), "10.jpg".to_string()]);
}

#[test]
fn remote_cascade_picks_first_hit_and_keeps_last_error() {
    let hit = |s: &str| CoverResult { source: s.to_string(), url: format!("https://x/{s}") };

    let outcomes = vec![Ok(None), Ok(Some(hit("b"))), Ok(Some(hit("c")))];
    let (cover, err) = find_remote_cover(&outcomes);
    assert_eq!(cover.unwrap().source, "b");
    assert_eq!(err, None);

    let outcomes2: Vec<Result<Option<CoverResult>, String>> =
        vec![Err("one".to_string()), Ok(None), Err("two".to_string())];
    let (cover2, err2) = find_remote_cover(&outcomes2);
    assert!(cover2.is_none());
    assert_eq!(err2.as_deref(), Some("two"));

    let outcomes3 = vec![Err("early".to_string()), Ok(Some(hit("late"))), Ok(None)];
    let (cover3, err3) = find_remote_cover(&outcomes3);
    assert_eq!(cover3.unwrap().source, "late");
    assert_eq!(err3, None);
}

#[test]
fn undersized_jpeg_limits_record_an_encode_error() {
    // A picture that decodes but is too wide for a baseline JPEG: the
    // extraction tier records the encode failure and falls through.
    let wide = image::RgbImage::from_pixel(70000, 1, image::Rgb([1, 2, 3]));
    let mut png: Vec<u8> = Vec::new();
    wide.write_to(&mut std::io::Cursor::new(&mut png), image::ImageFormat::Png).unwrap();

    let (r, _) = start_cover_resolution("/lib/S".to_string(), "S".to_string());
    let listing = vec![file("S v01.cbz")];
    let (r, _) = ensure_series_cover(r, ResolveEvent::SeriesListing(Ok(listing)));
    let entries = vec![ZipEntry { name: "p1.png".to_string(), is_dir: false }];
    let (r, _) = ensure_series_cover(r, ResolveEvent::ArchiveEntries(Ok(entries)));
    let (r, out) = ensure_series_cover(r, ResolveEvent::EntryBytes(Ok(png)));
    assert!(matches!(out.action, ResolveAction::ProbeLocalCovers));
    assert_eq!(r.first_vol_err.as_deref(), Some("failed to encode JPEG: /lib/S/cover.jpg"));
}

#[test]
fn title_normalization() {
    assert_eq!(normalize_title("One-Punch Man!"), "onepunchman");
    assert_eq!(normalize_title("  BERSERK  "), "berserk");
    assert_eq!(normalize_title("20th Century Boys"), "20thcenturyboys");
    assert_eq!(normalize_title("..."), "");
}
