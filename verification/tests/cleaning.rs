use exif_rename::cleanup::{
    cleanup_empty_dirs, contains_files, delete_empty_dir, prefix, report_word, same_path,
};
use exif_rename::cleanup::{CleanupEvent, CleanupStep, DirEntry};
use exif_rename::paths::SourcePath;

fn path(parts: &[&str]) -> SourcePath {
    SourcePath::new(parts.iter().map(|p| p.to_string()).collect())
}

fn texts(dirs: &[SourcePath]) -> Vec<String> {
    dirs.iter().map(|d| d.to_text()).collect()
}

fn entry(name: &str, is_dir: bool) -> DirEntry {
    DirEntry { name: name.to_string(), is_dir }
}

#[test]
fn siblings_then_parents() {
    let sources = vec![path(&["a", "b", "c", "x.jpg"]), path(&["a", "b", "d", "y.jpg"])];
    assert_eq!(texts(&cleanup_empty_dirs(&sources)), vec!["a/b/d", "a/b/c", "a/b", "a"]);
    let turned = vec![path(&["a", "b", "d", "y.jpg"]), path(&["a", "b", "c", "x.jpg"])];
    assert_eq!(texts(&cleanup_empty_dirs(&turned)), vec!["a/b/d", "a/b/c", "a/b", "a"]);
}

#[test]
fn every_directory_once() {
    let sources = vec![
        path(&["a", "b", "x.jpg"]),
        path(&["a", "b", "y.jpg"]),
        path(&["a", "z.jpg"]),
        path(&["a", "b", "x.jpg"]),
    ];
    assert_eq!(texts(&cleanup_empty_dirs(&sources)), vec!["a/b", "a"]);
}

#[test]
fn deeper_directories_come_first() {
    let sources = vec![
        path(&["top.jpg"]),
        path(&["a", "x.jpg"]),
        path(&["/", "r", "s", "t", "u.jpg"]),
        path(&["a", "b", "c", "d", "e.jpg"]),
    ];
    let dirs = cleanup_empty_dirs(&sources);
    assert_eq!(
        texts(&dirs),
        vec!["a/b/c/d", "/r/s/t", "a/b/c", "/r/s", "a/b", "/r", "a", "/"]
    );
    for i in 1..dirs.len() {
        assert!(dirs[i - 1].depth() >= dirs[i].depth());
    }
}

#[test]
fn siblings_descend_by_their_paths() {
    let sources = vec![
        path(&["p", "b", "1.jpg"]),
        path(&["p", "ab", "2.jpg"]),
        path(&["p", "a", "3.jpg"]),
        path(&["q", "a", "4.jpg"]),
        path(&["p", "B", "5.jpg"]),
        path(&["p", "é", "6.jpg"]),
    ];
    assert_eq!(
        texts(&cleanup_empty_dirs(&sources)),
        vec!["q/a", "p/é", "p/b", "p/ab", "p/a", "p/B", "q", "p"]
    );
}

#[test]
fn set_of_paths_walked_backwards_agrees() {
    let sources = [
        "m/n/o/1.jpg", "m/n/p/2.jpg", "m/b/3.jpg", "m/n/a/4.jpg", "z/5.jpg", "m/n/o/6.jpg",
    ];
    let parsed: Vec<SourcePath> = sources
        .iter()
        .map(|s| SourcePath::new(s.split('/').map(|p| p.to_string()).collect()))
        .collect();
    let mut set = std::collections::BTreeSet::new();
    for s in sources {
        let parent = std::path::Path::new(s).parent().expect("a parent");
        for ancestor in parent.ancestors() {
            if !ancestor.as_os_str().is_empty() {
                set.insert(ancestor.to_path_buf());
            }
        }
    }
    let mut backwards: Vec<String> =
        set.iter().rev().map(|p| p.to_str().expect("text").to_string()).collect();
    backwards.sort_by(|a, b| b.matches('/').count().cmp(&a.matches('/').count()));
    assert_eq!(texts(&cleanup_empty_dirs(&parsed)), backwards);
}

#[test]
fn dry_run_reports_every_candidate_as_left() {
    let sources = vec![path(&["a", "b", "c", "x.jpg"]), path(&["a", "b", "d", "y.jpg"])];
    let mut lines = Vec::new();
    for dir in cleanup_empty_dirs(&sources) {
        let step = delete_empty_dir(true, &CleanupEvent::Start);
        assert_eq!(step, CleanupStep::Finish(false));
        lines.push(format!("{} {:?}", report_word(false), dir.to_text()));
    }
    assert_eq!(lines, vec!["#rmdir \"a/b/d\"", "#rmdir \"a/b/c\"", "#rmdir \"a/b\"", "#rmdir \"a\""]);
}

#[test]
fn nothing_above_a_bare_name() {
    assert!(cleanup_empty_dirs(&[path(&["x.jpg"])].to_vec()).is_empty());
    assert!(cleanup_empty_dirs(&Vec::new()).is_empty());
    assert!(cleanup_empty_dirs(&[path(&["/"])].to_vec()).is_empty());
    assert!(cleanup_empty_dirs(&[path(&[])].to_vec()).is_empty());
}

#[test]
fn pseudo_entries_do_not_count() {
    assert!(!contains_files(&vec![]));
    assert!(!contains_files(&vec![entry(".", true), entry("..", true)]));
    assert!(contains_files(&vec![entry(".", true), entry("x.jpg", false)]));
    assert!(contains_files(&vec![entry("sub", true)]));
    assert!(contains_files(&vec![entry(".", false)]));
    assert!(contains_files(&vec![entry("..", false)]));
    assert!(contains_files(&vec![entry("...", true)]));
}

#[test]
fn empty_directory_is_removed() {
    assert_eq!(delete_empty_dir(false, &CleanupEvent::Start), CleanupStep::List);
    assert_eq!(
        delete_empty_dir(false, &CleanupEvent::Listed(Some(vec![]))),
        CleanupStep::Remove
    );
    assert_eq!(delete_empty_dir(false, &CleanupEvent::Removed(true)), CleanupStep::Finish(true));
    assert_eq!(delete_empty_dir(false, &CleanupEvent::Removed(false)), CleanupStep::Finish(false));
}

#[test]
fn directory_with_files_is_left() {
    assert_eq!(
        delete_empty_dir(false, &CleanupEvent::Listed(Some(vec![entry("keep.txt", false)]))),
        CleanupStep::Finish(false)
    );
}

#[test]
fn missing_directory_is_tolerated() {
    assert_eq!(delete_empty_dir(false, &CleanupEvent::Listed(None)), CleanupStep::Finish(false));
}

#[test]
fn dry_run_touches_no_directory() {
    for event in [
        CleanupEvent::Start,
        CleanupEvent::Listed(Some(vec![])),
        CleanupEvent::Listed(None),
        CleanupEvent::Removed(true),
    ] {
        assert_eq!(delete_empty_dir(true, &event), CleanupStep::Finish(false));
    }
}

#[test]
fn report_words() {
    assert_eq!(report_word(true), "rmdir");
    assert_eq!(report_word(false), "#rmdir");
}

#[test]
fn prefixes_and_equality() {
    let p = path(&["a", "b", "c"]);
    assert_eq!(prefix(&p, 0), path(&[]));
    assert_eq!(prefix(&p, 2), path(&["a", "b"]));
    assert_eq!(prefix(&p, 3), p);
    assert!(same_path(&p, &path(&["a", "b", "c"])));
    assert!(!same_path(&p, &path(&["a", "b"])));
    assert!(!same_path(&p, &path(&["a", "b", "d"])));
    assert!(!same_path(&path(&["ab"]), &path(&["a", "b"])));
}
