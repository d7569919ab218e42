use exif_rename::action::{apply_mode, begin, choose_target, display_line, symlink_target};
use exif_rename::action::{relative_target, wants_relative_target};
use exif_rename::action::{Outcome, Step};
use exif_rename::mode::Mode;
use exif_rename::paths::SourcePath;

fn path(parts: &[&str]) -> SourcePath {
    SourcePath::new(parts.iter().map(|p| p.to_string()).collect())
}

fn run(mode: Mode, force: bool, dry_run: bool, answers: &[bool]) -> Vec<Step> {
    let mut steps = vec![begin()];
    let mut step = begin();
    for answer in answers {
        if step.is_final() {
            break;
        }
        step = apply_mode(mode, force, dry_run, step, *answer);
        steps.push(step);
    }
    steps
}

fn writes(step: &Step) -> bool {
    matches!(
        step,
        Step::RemoveDestination
            | Step::CreateParent
            | Step::Rename
            | Step::CopyFile
            | Step::SymLink
            | Step::HardLink
    )
}

#[test]
fn move_goes_through_every_check() {
    assert_eq!(
        run(Mode::Move, false, false, &[true, false, false, true, true]),
        vec![
            Step::Render,
            Step::CompareFiles,
            Step::ProbeDestination,
            Step::CreateParent,
            Step::Rename,
            Step::Finish(Outcome::Applied),
        ]
    );
}

#[test]
fn each_mode_has_its_operation() {
    let answers = [true, false, false, true, true];
    assert_eq!(run(Mode::Copy, false, false, &answers)[4], Step::CopyFile);
    assert_eq!(run(Mode::SymLink, false, false, &answers)[4], Step::SymLink);
    assert_eq!(run(Mode::HardLink, false, false, &answers)[4], Step::HardLink);
    assert_eq!(run(Mode::Move, false, false, &answers)[4], Step::Rename);
}

#[test]
fn info_only_shows() {
    assert_eq!(
        run(Mode::Info, true, false, &[true, true, true]),
        vec![Step::Render, Step::ShowProperties, Step::Finish(Outcome::Shown)]
    );
}

#[test]
fn failed_render_skips_the_file() {
    for mode in Mode::value_variants() {
        assert_eq!(
            run(mode, true, false, &[false, true, true]),
            vec![Step::Render, Step::Finish(Outcome::RenderFailed)]
        );
    }
}

#[test]
fn same_file_is_skipped() {
    assert_eq!(
        run(Mode::Move, true, false, &[true, true, true, true]),
        vec![Step::Render, Step::CompareFiles, Step::Finish(Outcome::SameFile)]
    );
}

#[test]
fn existing_destination_is_skipped_without_force() {
    for mode in [Mode::Move, Mode::Copy, Mode::SymLink, Mode::HardLink] {
        for dry_run in [false, true] {
            let steps = run(mode, false, dry_run, &[true, false, true, true, true, true]);
            assert_eq!(
                steps,
                vec![
                    Step::Render,
                    Step::CompareFiles,
                    Step::ProbeDestination,
                    Step::Finish(Outcome::DestinationExists),
                ]
            );
            assert!(steps.iter().all(|s| !writes(s)));
        }
    }
}

#[test]
fn existing_destination_is_replaced_with_force() {
    assert_eq!(
        run(Mode::Copy, true, false, &[true, false, true, true, true, true]),
        vec![
            Step::Render,
            Step::CompareFiles,
            Step::ProbeDestination,
            Step::RemoveDestination,
            Step::CreateParent,
            Step::CopyFile,
            Step::Finish(Outcome::Applied),
        ]
    );
    assert_eq!(
        run(Mode::Copy, true, false, &[true, false, true, false, true, true]),
        vec![
            Step::Render,
            Step::CompareFiles,
            Step::ProbeDestination,
            Step::RemoveDestination,
            Step::Finish(Outcome::RemoveFailed),
        ]
    );
}

#[test]
fn dry_run_stops_before_the_directory() {
    assert_eq!(
        run(Mode::Move, false, true, &[true, false, false, true, true]),
        vec![
            Step::Render,
            Step::CompareFiles,
            Step::ProbeDestination,
            Step::Finish(Outcome::DryRun),
        ]
    );
    assert_eq!(
        run(Mode::Move, true, true, &[true, false, true, true, true]),
        vec![
            Step::Render,
            Step::CompareFiles,
            Step::ProbeDestination,
            Step::RemoveDestination,
            Step::Finish(Outcome::DryRun),
        ]
    );
}

#[test]
fn failures_end_the_file() {
    assert_eq!(
        run(Mode::Move, false, false, &[true, false, false, false, true]),
        vec![
            Step::Render,
            Step::CompareFiles,
            Step::ProbeDestination,
            Step::CreateParent,
            Step::Finish(Outcome::ParentFailed),
        ]
    );
    assert_eq!(
        run(Mode::HardLink, false, false, &[true, false, false, true, false])[5],
        Step::Finish(Outcome::Failed)
    );
}

#[test]
fn every_run_ends_within_six_answers() {
    for mode in Mode::value_variants() {
        for bits in 0..256u32 {
            let force = bits & 64 != 0;
            let dry_run = bits & 128 != 0;
            let answers: Vec<bool> = (0..6).map(|i| bits & (1 << i) != 0).collect();
            let steps = run(mode, force, dry_run, &answers);
            assert!(steps.last().expect("a step").is_final());
            if dry_run {
                assert!(steps.iter().all(|s| !writes(s) || *s == Step::RemoveDestination));
            }
            if !force {
                assert!(steps.iter().all(|s| *s != Step::RemoveDestination));
            }
        }
    }
}

#[test]
fn finished_stays_finished() {
    let done = Step::Finish(Outcome::Applied);
    assert_eq!(apply_mode(Mode::Move, true, false, done, true), done);
    assert_eq!(apply_mode(Mode::Move, true, false, done, false), done);
}

#[test]
fn absolute_source_is_linked_directly() {
    let src = path(&["/", "photos", "a.jpg"]);
    assert_eq!(symlink_target(&src, "/photos/a.jpg", "/out", false), "/photos/a.jpg");
    assert_eq!(symlink_target(&src, "/photos/a.jpg", "/out", true), "/photos/a.jpg");
}

#[test]
fn relative_source_is_linked_relatively() {
    let src = path(&["photos", "a.jpg"]);
    assert_eq!(
        symlink_target(&src, "/home/u/photos/a.jpg", "/home/u/out", false),
        "../photos/a.jpg"
    );
    assert_eq!(
        symlink_target(&src, "/home/u/photos/a.jpg", "/home/u/out/2024/05", false),
        "../../../photos/a.jpg"
    );
    assert_eq!(symlink_target(&src, "/home/u/photos/a.jpg", "/home/u/photos", false), "a.jpg");
}

#[test]
fn relative_target_leads_back_to_the_source() {
    let src = path(&["photos", "a.jpg"]);
    let resolved = "/home/u/photos/a.jpg";
    let link_dir = "/home/u/out/2024";
    let target = symlink_target(&src, resolved, link_dir, false);
    let mut walked: Vec<&str> = link_dir.split('/').filter(|p| !p.is_empty()).collect();
    for part in target.split('/') {
        if part == ".." {
            walked.pop();
        } else {
            walked.push(part);
        }
    }
    assert_eq!(format!("/{}", walked.join("/")), resolved);
}

#[test]
fn only_relative_sources_are_linked_relatively() {
    assert!(wants_relative_target(&path(&["photos", "a.jpg"]), false));
    assert!(!wants_relative_target(&path(&["photos", "a.jpg"]), true));
    assert!(!wants_relative_target(&path(&["/", "photos", "a.jpg"]), false));
    assert!(!wants_relative_target(&path(&["/", "photos", "a.jpg"]), true));
}

#[test]
fn relative_path_between_directories() {
    assert_eq!(relative_target("/a/b/x.jpg", "/a/c"), Some("../b/x.jpg".to_string()));
    assert_eq!(relative_target("/a/b/x.jpg", "/a/b"), Some("x.jpg".to_string()));
    assert_eq!(relative_target("/a/b/x.jpg", "rel"), Some("/a/b/x.jpg".to_string()));
    assert_eq!(relative_target("rel/x.jpg", "/a"), None);
}

#[test]
fn forced_absolute_target() {
    let src = path(&["photos", "a.jpg"]);
    assert_eq!(
        symlink_target(&src, "/home/u/photos/a.jpg", "/home/u/out", true),
        "/home/u/photos/a.jpg"
    );
}

#[test]
fn no_relative_path_falls_back_to_absolute() {
    let src = path(&["photos", "a.jpg"]);
    assert_eq!(symlink_target(&src, "/home/u/photos/a.jpg", "../out", false), "/home/u/photos/a.jpg");
    assert_eq!(choose_target(&src, "/abs/a.jpg", None, false), "/abs/a.jpg");
    assert_eq!(choose_target(&src, "/abs/a.jpg", Some("../a.jpg".to_string()), false), "../a.jpg");
    assert_eq!(choose_target(&src, "/abs/a.jpg", Some("../a.jpg".to_string()), true), "/abs/a.jpg");
}

#[test]
fn short_values_are_shown_whole() {
    assert_eq!(display_line("Make", "Canon", 100), "{{Make}} \"Canon\"");
    assert_eq!(display_line("Make", "Canon", 5), "{{Make}} \"Canon\"");
    assert_eq!(display_line("Make", "", 100), "{{Make}} \"\"");
}

#[test]
fn long_values_are_cut_in_the_middle() {
    assert_eq!(
        display_line("K", "abcdefghijklmnopqrstuvwxyz", 10),
        "{{K}} \"abcde ... vwxyz\" (26 chars total)"
    );
    assert_eq!(display_line("K", "abcdef", 5), "{{K}} \"ab ... ef\" (6 chars total)");
    assert_eq!(display_line("K", "abc", 1), "{{K}} \" ... \" (3 chars total)");
}

#[test]
fn zero_length_means_no_limit() {
    let long = "x".repeat(500);
    assert_eq!(display_line("K", &long, 0), format!("{{{{K}}}} \"{}\"", long));
}

#[test]
fn cut_counts_characters() {
    assert_eq!(display_line("K", "äöüäöüäöü", 4), "{{K}} \"äö ... öü\" (9 chars total)");
}
