//! Batch planning, the plan report, the execution steps, and the archival
//! decisions for batch covers.

use manga_cleaner::plan::{archive_existing_cover_jpg, batch_dirs, build_plan, ensure_cover_old,
    execute, format_plan, run_action, run_action_finish, write_numbered_cover, CoverStep,
    ExecStep, UiAction};
use manga_cleaner::resolve::DirEntry;

fn strings(v: &[&str]) -> Vec<String> {
    v.iter().map(|s| s.to_string()).collect()
}

fn volumes(n: usize) -> Vec<String> {
    (1..=n).map(|i| format!("Series v{i:03}.cbz")).collect()
}

#[test]
fn twenty_five_volumes_make_two_batches() {
    let vols = volumes(25);
    let existing: Vec<Vec<String>> = vec![Vec::new(), Vec::new()];
    let plan = build_plan("/lib/Series", &vols, &existing, true).expect("plan");
    assert_eq!(plan.len(), 2);
    assert_eq!(plan[0].batch_index, 1);
    assert_eq!(plan[1].batch_index, 2);
    assert_eq!(plan[0].batch_dir, "/lib/Series 1");
    assert_eq!(plan[1].batch_dir, "/lib/Series 2");
    assert_eq!(plan[0].moves.len(), 20);
    assert_eq!(plan[1].moves.len(), 5);
    assert!(plan[0].will_make_cover && plan[1].will_make_cover);
    assert_eq!(plan[0].moves[0].src, "/lib/Series/Series v001.cbz");
    assert_eq!(plan[0].moves[0].dst_name, "Series v001.cbz");
    assert_eq!(plan[1].moves[4].src, "/lib/Series/Series v025.cbz");
    assert_eq!(plan[1].moves[4].dst, "/lib/Series 2/Series v025.cbz");

    // A committed run renders exactly the two batch numbers, dead last in
    // each batch's segment.
    let steps = execute(&plan, &Some("/lib/Series/cover.jpg".to_string()));
    let renders: Vec<(String, usize)> = steps
        .iter()
        .filter_map(|s| match s {
            ExecStep::RenderCover { batch_dir, number } => Some((batch_dir.clone(), *number)),
            _ => None,
        })
        .collect();
    assert_eq!(
        renders,
        vec![("/lib/Series 1".to_string(), 1), ("/lib/Series 2".to_string(), 2)]
    );
    match &steps[0] {
        ExecStep::MakeDir(d) => assert_eq!(d, "/lib/Series 1"),
        other => panic!("unexpected first step: {other:?}"),
    }
    match steps.last().unwrap() {
        ExecStep::Note(t) => assert_eq!(t, "[COMPLETE] Done."),
        other => panic!("unexpected last step: {other:?}"),
    }
}

#[test]
fn no_volumes_is_an_explicit_error() {
    let vols: Vec<String> = Vec::new();
    let existing: Vec<Vec<String>> = Vec::new();
    let r = build_plan("/lib/Series", &vols, &existing, false);
    assert_eq!(r.err().unwrap(), "No volume files found in: /lib/Series");

    // The run refuses before any cover work: `run_action` for Process fails
    // on a folder without volumes.
    let entries = vec![DirEntry { name: "notes.txt".to_string(), is_file: true }];
    let r2 = run_action(UiAction::Process, "/lib/Series", &entries);
    assert_eq!(r2.err().unwrap(), "No volume files found in: /lib/Series");
}

#[test]
fn no_cover_skips_rendering_but_moves_files() {
    let vols = volumes(3);
    let existing: Vec<Vec<String>> = vec![Vec::new()];
    let plan = build_plan("/lib/Series", &vols, &existing, false).expect("plan");
    assert!(!plan[0].will_make_cover);
    let steps = execute(&plan, &None);
    assert!(steps.iter().all(|s| !matches!(s, ExecStep::RenderCover { .. })));
    let moves = steps.iter().filter(|s| matches!(s, ExecStep::MoveFile { .. })).count();
    assert_eq!(moves, 3);
}

#[test]
fn collisions_get_numbered_names() {
    // Two sources that clean to the same name, plus a file already present.
    let vols = strings(&["Series v1.cbz", "Series v01.cbz"]);
    let existing: Vec<Vec<String>> = vec![strings(&["Series v001.cbz"])];
    let plan = build_plan("/lib/Series", &vols, &existing, false).expect("plan");
    let names: Vec<&str> = plan[0].moves.iter().map(|m| m.dst_name.as_str()).collect();
    assert_eq!(names, vec!["Series v001 (2).cbz", "Series v001 (3).cbz"]);
}

#[test]
fn plan_report_text() {
    let vols = volumes(1);
    let existing: Vec<Vec<String>> = vec![Vec::new()];
    let plan = build_plan("/lib/Series", &vols, &existing, false).expect("plan");
    let text = format_plan("/lib/Series", &plan, &None);
    let bar = "=".repeat(98);
    let expected = format!(
        "\n{bar}\n[PLAN] Manga toolkit (Rust)\n[PLAN] Series folder: /lib/Series\n\
         [PLAN] Volumes found: 1\n[PLAN] Batch size: 20\n\
         [PLAN] Covers: skipped (no cover image found/downloaded)\n{bar}\n\
         \nSeries 1  (volumes 1-1)\n  [DIR] /lib/Series 1\n     1. Series v001.cbz\n\
         \n{bar}\n"
    );
    assert_eq!(text, expected);
}

#[test]
fn plan_report_mentions_cover_and_renames() {
    let vols = strings(&["Series v1.cbz"]);
    let existing: Vec<Vec<String>> = vec![Vec::new()];
    let plan = build_plan("/lib/Series", &vols, &existing, true).expect("plan");
    let text = format_plan("/lib/Series", &plan, &Some("/lib/Series/cover.jpg".to_string()));
    assert!(text.contains("[PLAN] Series cover source: /lib/Series/cover.jpg"));
    assert!(text.contains("  [COVER] cover_old.jpg + cover.jpg (number 1)"));
    assert!(text.contains("     1. Series v1.cbz  (rename: Series v1.cbz -> Series v001.cbz)"));
}

#[test]
fn batch_dirs_need_a_parent() {
    let r = batch_dirs("plain", 5);
    assert_eq!(r.err().unwrap(), "Series folder has no parent: plain");
    let dirs = batch_dirs("/lib/Series", 25).expect("dirs");
    assert_eq!(dirs, strings(&["/lib/Series 1", "/lib/Series 2"]));
}

#[test]
fn archiving_never_overwrites_and_is_idempotent() {
    // First call: the existing cover.jpg is renamed to a fresh cover_old name.
    let state1 = strings(&["cover.jpg", "cover_old.jpg"]);
    let mv = archive_existing_cover_jpg(&state1).expect("archived");
    assert_eq!(mv.0, "cover.jpg");
    assert_eq!(mv.1, "cover_old_2.jpg");
    assert!(!state1.contains(&mv.1));

    // Apply the rename, then call again: nothing left to archive.
    let state2 = strings(&["cover_old.jpg", "cover_old_2.jpg"]);
    assert_eq!(archive_existing_cover_jpg(&state2), None);

    let (baseline, needs_copy) = ensure_cover_old(&state2);
    assert_eq!(baseline, "cover_old.jpg");
    assert!(!needs_copy);

    let empty: Vec<String> = Vec::new();
    let (baseline2, needs_copy2) = ensure_cover_old(&empty);
    assert_eq!(baseline2, "cover_old.jpg");
    assert!(needs_copy2);
}

#[test]
fn numbered_cover_write_plan() {
    let existing = strings(&["cover.jpg", "cover_old.jpg"]);
    let steps = write_numbered_cover(3, &existing);
    assert_eq!(steps.len(), 2);
    match &steps[0] {
        CoverStep::Archive { from, to } => {
            assert_eq!(from, "cover.jpg");
            assert_eq!(to, "cover_old_2.jpg");
        },
        other => panic!("unexpected step: {other:?}"),
    }
    match &steps[1] {
        CoverStep::Render { baseline, number } => {
            assert_eq!(baseline, "cover_old.jpg");
            assert_eq!(*number, 3);
        },
        other => panic!("unexpected step: {other:?}"),
    }

    // No baseline yet and nothing to archive: the series cover is copied.
    let fresh: Vec<String> = Vec::new();
    let steps2 = write_numbered_cover(1, &fresh);
    assert!(matches!(&steps2[0], CoverStep::CopyBaseline { to } if to == "cover_old.jpg"));
    assert!(matches!(&steps2[1], CoverStep::Render { baseline, number: 1 } if baseline == "cover_old.jpg"));

    // A cover.jpg but no baseline: the archival itself becomes the baseline,
    // so nothing is copied.
    let only_cover = strings(&["cover.jpg"]);
    let steps3 = write_numbered_cover(2, &only_cover);
    assert_eq!(steps3.len(), 2);
    assert!(matches!(&steps3[0], CoverStep::Archive { from, to } if from == "cover.jpg" && to == "cover_old.jpg"));
    assert!(matches!(&steps3[1], CoverStep::Render { baseline, number: 2 } if baseline == "cover_old.jpg"));

    // Baseline already there and no cover.jpg: render only.
    let only_old = strings(&["cover_old.jpg"]);
    let steps4 = write_numbered_cover(4, &only_old);
    assert_eq!(steps4.len(), 1);
    assert!(matches!(&steps4[0], CoverStep::Render { baseline, number: 4 } if baseline == "cover_old.jpg"));
}

#[test]
fn action_labels() {
    assert_eq!(UiAction::ShowCover.label(), "Show Cover");
    assert_eq!(UiAction::Preview.label(), "Show Plan");
    assert_eq!(UiAction::Process.label(), "Commit + Process");
    assert_eq!(UiAction::ShowCover.action_title(), "SHOW COVER");
    assert_eq!(UiAction::Preview.action_title(), "SHOW PLAN");
    assert_eq!(UiAction::Process.action_title(), "COMMIT + PROCESS");
}

#[test]
fn show_cover_finish() {
    let vols: Vec<String> = Vec::new();
    let existing: Vec<Vec<String>> = Vec::new();
    let r = run_action_finish(UiAction::ShowCover, "/lib/Series", &vols, &existing, &None);
    assert_eq!(
        r.err().unwrap(),
        "[COVER-CHECK] No cover found from local files or remote providers."
    );

    let cover = Some("/lib/Series/poster.jpg".to_string());
    let out = run_action_finish(UiAction::ShowCover, "/lib/Series", &vols, &existing, &cover)
        .expect("outcome");
    assert_eq!(out.output.cover_path.as_deref(), Some("/lib/Series/cover.jpg"));
    assert_eq!(out.logs, vec!["/lib/Series/cover.jpg".to_string()]);
    assert_eq!(out.steps.len(), 1);
    assert!(matches!(
        &out.steps[0],
        ExecStep::ConvertCover { src, dst }
            if src == "/lib/Series/poster.jpg" && dst == "/lib/Series/cover.jpg"
    ));

    // Already canonical: nothing to convert.
    let cover2 = Some("/lib/Series/cover.jpg".to_string());
    let out2 = run_action_finish(UiAction::ShowCover, "/lib/Series", &vols, &existing, &cover2)
        .expect("outcome");
    assert!(out2.steps.is_empty());
}

#[test]
fn preview_reports_without_steps() {
    let vols: Vec<String> = vec!["Series v1.cbz".to_string()];
    let existing: Vec<Vec<String>> = vec![Vec::new()];
    let out = run_action_finish(UiAction::Preview, "/lib/Series", &vols, &existing, &None)
        .expect("outcome");
    assert_eq!(out.logs.len(), 2);
    assert!(out.logs[0].contains("[PLAN] Manga toolkit (Rust)"));
    assert_eq!(out.logs[1], "[DRY-RUN] Plan printed only. No changes were made.");
    assert!(out.steps.is_empty());
    assert_eq!(out.output.cover_path, None);
    assert_eq!(out.plan.len(), 1);
}
