//! Filename logic: junk detection, extension checks, collision-free names,
//! cleaning, and path helpers.

use manga_cleaner::clean::clean_volume_filename;
use manga_cleaner::names::{file_name_text, is_hidden_or_macos_junk, is_image_file, is_volume_file,
    join_path, parent_dir, unique_cover_old_path, unique_path, unique_path_reserved,
    zip_entry_is_image};
use manga_cleaner::plan::resolve_series_dir;
use manga_cleaner::text::{repeat_char, u64_string, usize_string};

fn strings(v: &[&str]) -> Vec<String> {
    v.iter().map(|s| s.to_string()).collect()
}

#[test]
fn junk_names() {
    assert!(is_hidden_or_macos_junk(".DS_Store"));
    assert!(is_hidden_or_macos_junk("._vol1.cbz"));
    assert!(!is_hidden_or_macos_junk("vol1.cbz"));
    assert!(!is_hidden_or_macos_junk(""));
}

#[test]
fn extension_checks() {
    assert!(is_volume_file("a.cbz"));
    assert!(is_volume_file("A.CBZ"));
    assert!(is_volume_file("b.cbr"));
    assert!(is_volume_file("c.cb7"));
    assert!(is_volume_file("d.zip"));
    assert!(!is_volume_file("e.rar"));
    assert!(is_image_file("x.jpg"));
    assert!(is_image_file("x.JPEG"));
    assert!(is_image_file("x.webp"));
    assert!(!is_image_file("x.tiff"));
}

#[test]
fn zip_entries() {
    assert!(zip_entry_is_image("folder/p001.jpg"));
    assert!(zip_entry_is_image("p001.png"));
    assert!(!zip_entry_is_image("__MACOSX/p001.jpg"));
    assert!(!zip_entry_is_image("a/._p001.jpg"));
    assert!(!zip_entry_is_image(".hidden/p001.jpg"));
    assert!(!zip_entry_is_image("notes.txt"));
    assert!(zip_entry_is_image("a/../b.jpg"));
}

#[test]
fn unique_names() {
    let empty: Vec<String> = Vec::new();
    assert_eq!(unique_path(&empty, "Naruto v001.cbz"), "Naruto v001.cbz");
    let taken = strings(&["Naruto v001.cbz"]);
    assert_eq!(unique_path(&taken, "Naruto v001.cbz"), "Naruto v001 (2).cbz");
    let taken2 = strings(&["Naruto v001.cbz", "Naruto v001 (2).cbz"]);
    assert_eq!(unique_path(&taken2, "Naruto v001.cbz"), "Naruto v001 (3).cbz");
}

#[test]
fn unique_names_reserved() {
    let existing = strings(&["a.cbz"]);
    let mut reserved: Vec<String> = Vec::new();
    assert_eq!(unique_path_reserved(&existing, "b.cbz", &mut reserved), "b.cbz");
    assert_eq!(unique_path_reserved(&existing, "b.cbz", &mut reserved), "b (2).cbz");
    assert_eq!(unique_path_reserved(&existing, "a.cbz", &mut reserved), "a (2).cbz");
    assert_eq!(reserved, strings(&["b.cbz", "b (2).cbz", "a (2).cbz"]));
}

#[test]
fn cover_old_names_never_collide() {
    let empty: Vec<String> = Vec::new();
    assert_eq!(unique_cover_old_path(&empty), "cover_old.jpg");
    let one = strings(&["cover_old.jpg"]);
    assert_eq!(unique_cover_old_path(&one), "cover_old_2.jpg");
    let two = strings(&["cover_old.jpg", "cover_old_2.jpg"]);
    assert_eq!(unique_cover_old_path(&two), "cover_old_3.jpg");
}

#[test]
fn cleaning_volume_names() {
    assert_eq!(clean_volume_filename("Naruto v01 (2019).cbz", true), "Naruto v001.cbz");
    assert_eq!(clean_volume_filename("One Piece v2_3.cbz", true), "One Piece v002.cbz");
    assert_eq!(clean_volume_filename("v5.cbz", false), "v5.cbz");
    assert_eq!(clean_volume_filename("Title  with   spaces v12.cbz", true), "Title with spaces v012.cbz");
    assert_eq!(clean_volume_filename("Cover.jpg", true), "Cover.jpg");
    assert_eq!(clean_volume_filename("Berserk v120.cbz", true), "Berserk v120.cbz");
    assert_eq!(clean_volume_filename("Berserk v0007.cbz", false), "Berserk v7.cbz");
}

#[test]
fn path_helpers() {
    assert_eq!(file_name_text("/library/Series Name"), "Series Name");
    assert_eq!(file_name_text("plain"), "plain");
    assert_eq!(parent_dir("/library/Series"), Some("/library".to_string()));
    assert_eq!(parent_dir("/x"), Some("/".to_string()));
    assert_eq!(parent_dir("plain"), None);
    assert_eq!(join_path("/library/Series", "cover.jpg"), "/library/Series/cover.jpg");
}

#[test]
fn series_dir_resolution() {
    let home = Some("/home/user".to_string());
    assert_eq!(resolve_series_dir("~", &home), Ok("/home/user".to_string()));
    assert_eq!(resolve_series_dir("~/manga/Series", &home), Ok("/home/user/manga/Series".to_string()));
    assert_eq!(resolve_series_dir("  /library/Series  ", &home), Ok("/library/Series".to_string()));
    assert_eq!(resolve_series_dir("   ", &home), Err("Folder path is empty.".to_string()));
    assert_eq!(resolve_series_dir("~/x", &None), Ok("~/x".to_string()));
}

#[test]
fn numerals() {
    assert_eq!(u64_string(0), "0");
    assert_eq!(u64_string(7), "7");
    assert_eq!(u64_string(120), "120");
    assert_eq!(usize_string(1005), "1005");
    assert_eq!(repeat_char('=', 3), "===");
    assert_eq!(repeat_char('-', 0), "");
}
