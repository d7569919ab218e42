//! Removing the directories that a run has emptied.
//!
//! The candidates are the directories above the sources that were
//! handled. They are taken deepest first, so that a directory is looked
//! at only after everything below it has had its turn; directories of
//! one depth are taken in descending order of their paths. The list is
//! built in that order and without repeats, so both are proved of it
//! rather than taken from an ordering of paths.

use crate::text::str_eq;
use crate::paths::{
    has_parent, lemma_path_order_total, lemma_path_order_transitive, path_before, SourcePath,
};
use vstd::prelude::*;

verus! {

/// The component lists of a list of paths.
pub open spec fn views(list: Seq<SourcePath>) -> Seq<Seq<Seq<char>>> {
    list.map_values(|p: SourcePath| p@)
}

/// Whether `dir` is a directory above the file `path`: the parent of
/// the path or one of the parent's ancestors, the empty path left out.
pub open spec fn lies_above(dir: Seq<Seq<char>>, path: Seq<Seq<char>>) -> bool {
    has_parent(path) && 1 <= dir.len() < path.len() && dir == path.take(dir.len() as int)
}

/// Whether `dir` lies above one of the first `upto` paths.
pub open spec fn found_by(paths: Seq<Seq<Seq<char>>>, upto: int, dir: Seq<Seq<char>>) -> bool {
    exists|j: int| 0 <= j < upto && j < paths.len() && lies_above(dir, #[trigger] paths[j])
}

/// Whether `dir` lies above one of the paths.
pub open spec fn is_candidate(paths: Seq<Seq<Seq<char>>>, dir: Seq<Seq<char>>) -> bool {
    found_by(paths, paths.len() as int, dir)
}

/// Whether `dir` is in the list.
pub open spec fn listed(dirs: Seq<Seq<Seq<char>>>, dir: Seq<Seq<char>>) -> bool {
    exists|i: int| 0 <= i < dirs.len() && #[trigger] dirs[i] == dir
}

/// No directory is in the list twice.
pub open spec fn distinct(dirs: Seq<Seq<Seq<char>>>) -> bool {
    forall|i: int, j: int|
        0 <= i < dirs.len() && 0 <= j < dirs.len() && #[trigger] dirs[i] == #[trigger] dirs[j]
            ==> i == j
}

/// A directory with more components never comes after one with fewer.
pub open spec fn deepest_first(dirs: Seq<Seq<Seq<char>>>) -> bool {
    forall|i: int, j: int|
        0 <= i < j < dirs.len() ==> (#[trigger] dirs[i]).len() >= (#[trigger] dirs[j]).len()
}

/// Directories of one depth stand in descending order of their paths,
/// compared component by component.
pub open spec fn siblings_descend(dirs: Seq<Seq<Seq<char>>>) -> bool {
    forall|a: int, b: int|
        0 <= a < b < dirs.len() && (#[trigger] dirs[a]).len() == (#[trigger] dirs[b]).len()
            ==> path_before(dirs[b], dirs[a])
}

/// Whether `first` has its turn before `second`: it is deeper, or as
/// deep and the later of the two as paths.
pub open spec fn turn_before(first: Seq<Seq<char>>, second: Seq<Seq<char>>) -> bool {
    first.len() > second.len() || (first.len() == second.len() && path_before(second, first))
}

/// Every directory of the list has its turn before all that follow it.
pub open spec fn in_turn(dirs: Seq<Seq<Seq<char>>>) -> bool {
    forall|a: int, b: int|
        0 <= a < b < dirs.len() ==> turn_before(#[trigger] dirs[a], #[trigger] dirs[b])
}

/// In a list that goes deepest first, a directory comes only after
/// every listed directory that lies below it.
pub proof fn lemma_children_come_first(dirs: Seq<Seq<Seq<char>>>, child: int, parent: int)
    requires
        deepest_first(dirs),
        0 <= child < dirs.len(),
        0 <= parent < dirs.len(),
        dirs[parent].len() < dirs[child].len(),
    ensures
        child < parent,
{
    if parent < child {
        assert(dirs[parent].len() >= dirs[child].len());
    }
}

/// One entry of a directory listing.
#[derive(Clone, Debug, PartialEq, Eq)]
pub struct DirEntry {
    pub name: String,
    pub is_dir: bool,
}

/// Whether an entry is one of the two that every directory holds: the
/// directory itself or the one above.
pub open spec fn is_pseudo_entry(entry: DirEntry) -> bool {
    entry.is_dir && (entry.name@ == seq!['.'] || entry.name@ == seq!['.', '.'])
}

/// Whether a listing holds anything besides the two pseudo entries.
pub open spec fn holds_files(listing: Seq<DirEntry>) -> bool {
    exists|i: int| 0 <= i < listing.len() && !is_pseudo_entry(#[trigger] listing[i])
}

/// Whether a listing holds anything besides the two pseudo entries.
pub fn contains_files(listing: &Vec<DirEntry>) -> (yes: bool)
    ensures
        yes == holds_files(listing@),
{
    let mut i: usize = 0;
    while i < listing.len()
        invariant
            i <= listing@.len(),
            forall|k: int| 0 <= k < i ==> is_pseudo_entry(#[trigger] listing@[k]),
        decreases listing@.len() - i,
    {
        proof {
            reveal_strlit(".");
            reveal_strlit("..");
            assert("."@ =~= seq!['.']);
            assert(".."@ =~= seq!['.', '.']);
        }
        let entry = &listing[i];
        let pseudo = entry.is_dir && (str_eq(entry.name.as_str(), ".") || str_eq(
            entry.name.as_str(),
            "..",
        ));
        if !pseudo {
            return true;
        }
        i = i + 1;
    }
    false
}

/// What is known of a candidate directory so far.
#[derive(Clone, Debug, PartialEq, Eq)]
pub enum CleanupEvent {
    /// Nothing yet.
    Start,
    /// The directory was listed, or could not be (`None`), for one
    /// because it is no longer there.
    Listed(Option<Vec<DirEntry>>),
    /// The removal was tried; `true` where it succeeded.
    Removed(bool),
}

/// What to do with a candidate directory next.
#[derive(Copy, Clone, PartialEq, Eq, Structural, Debug)]
pub enum CleanupStep {
    /// List the directory.
    List,
    /// Remove the directory itself, and nothing below it.
    Remove,
    /// Done: the directory was deleted (`true`) or left in place.
    Finish(bool),
}

/// The next step for a candidate. A dry run touches nothing. A
/// directory is removed only after a listing that showed it empty, and
/// counts as deleted only once the removal has succeeded.
pub open spec fn cleanup_step(dry_run: bool, event: CleanupEvent) -> CleanupStep {
    match event {
        CleanupEvent::Start => if dry_run {
            CleanupStep::Finish(false)
        } else {
            CleanupStep::List
        },
        CleanupEvent::Listed(Some(listing)) => if dry_run || holds_files(listing@) {
            CleanupStep::Finish(false)
        } else {
            CleanupStep::Remove
        },
        CleanupEvent::Listed(None) => CleanupStep::Finish(false),
        CleanupEvent::Removed(done) => CleanupStep::Finish(done && !dry_run),
    }
}

/// A directory that still holds something is never removed, and a dry
/// run neither lists nor removes.
pub proof fn lemma_only_empty_directories_go(dry_run: bool, event: CleanupEvent)
    ensures
        cleanup_step(dry_run, event) == CleanupStep::Remove ==> !dry_run && (
        event matches CleanupEvent::Listed(Some(listing)) && !holds_files(listing@)),
        dry_run ==> cleanup_step(dry_run, event) == CleanupStep::Finish(false),
{
}

/// The next step for a candidate directory.
pub fn delete_empty_dir(dry_run: bool, event: &CleanupEvent) -> (step: CleanupStep)
    ensures
        step == cleanup_step(dry_run, *event),
{
    if dry_run {
        return CleanupStep::Finish(false);
    }
    match event {
        CleanupEvent::Start => CleanupStep::List,
        CleanupEvent::Listed(Some(listing)) => {
            if contains_files(listing) {
                CleanupStep::Finish(false)
            } else {
                CleanupStep::Remove
            }
        },
        CleanupEvent::Listed(None) => CleanupStep::Finish(false),
        CleanupEvent::Removed(done) => CleanupStep::Finish(*done),
    }
}

/// The word that reports a candidate: `rmdir` where it was deleted,
/// `#rmdir` where it was left in place.
pub fn report_word(deleted: bool) -> (word: &'static str)
    ensures
        word@ == if deleted {
            "rmdir"@
        } else {
            "#rmdir"@
        },
{
    if deleted {
        "rmdir"
    } else {
        "#rmdir"
    }
}

/// Whether two paths have the same components.
pub fn same_path(a: &SourcePath, b: &SourcePath) -> (same: bool)
    ensures
        same == (a@ == b@),
{
    if a.parts.len() != b.parts.len() {
        proof {
            assert(a@.len() != b@.len());
        }
        return false;
    }
    let mut i: usize = 0;
    while i < a.parts.len()
        invariant
            i <= a.parts@.len(),
            a.parts@.len() == b.parts@.len(),
            forall|k: int| 0 <= k < i ==> #[trigger] a@[k] == b@[k],
        decreases a.parts@.len() - i,
    {
        if !str_eq(a.parts[i].as_str(), b.parts[i].as_str()) {
            proof {
                assert(a@[i as int] != b@[i as int]);
            }
            return false;
        }
        i = i + 1;
    }
    proof {
        assert(a@ =~= b@);
    }
    true
}

/// The path made of the first `count` components of `path`.
pub fn prefix(path: &SourcePath, count: usize) -> (head: SourcePath)
    requires
        count <= path@.len(),
    ensures
        head@ == path@.take(count as int),
{
    let mut parts: Vec<String> = Vec::new();
    let mut i: usize = 0;
    while i < count
        invariant
            i <= count <= path.parts@.len(),
            parts@.len() == i,
            forall|k: int| 0 <= k < i ==> (#[trigger] parts@[k])@ == path.parts@[k]@,
        decreases count - i,
    {
        parts.push(path.parts[i].clone());
        i = i + 1;
    }
    let head = SourcePath { parts };
    proof {
        assert(head@ =~= path@.take(count as int));
    }
    head
}

/// Whether `dir` is in the list.
fn is_listed(dirs: &Vec<SourcePath>, dir: &SourcePath) -> (yes: bool)
    ensures
        yes == listed(views(dirs@), dir@),
{
    let mut i: usize = 0;
    while i < dirs.len()
        invariant
            i <= dirs@.len(),
            forall|k: int| 0 <= k < i ==> #[trigger] views(dirs@)[k] != dir@,
        decreases dirs@.len() - i,
    {
        if same_path(&dirs[i], dir) {
            proof {
                assert(views(dirs@)[i as int] == dir@);
            }
            return true;
        }
        i = i + 1;
    }
    false
}

/// The largest number of components among the paths.
fn greatest_depth(paths: &Vec<SourcePath>) -> (most: usize)
    ensures
        forall|j: int| 0 <= j < paths@.len() ==> (#[trigger] views(paths@)[j]).len() <= most,
{
    let mut most: usize = 0;
    let mut j: usize = 0;
    while j < paths.len()
        invariant
            j <= paths@.len(),
            forall|k: int| 0 <= k < j ==> (#[trigger] views(paths@)[k]).len() <= most,
        decreases paths@.len() - j,
    {
        if paths[j].depth() > most {
            most = paths[j].depth();
        }
        j = j + 1;
    }
    most
}

/// Whether the path has a parent directory.
fn with_parent(path: &SourcePath) -> (yes: bool)
    ensures
        yes == has_parent(path@),
{
    path.parent().is_some()
}

/// The place in the list at which `dir` has its turn: the first
/// directory of the same depth that comes before it as a path, or the
/// end of the list.
fn slot(dirs: &Vec<SourcePath>, dir: &SourcePath) -> (at: usize)
    ensures
        at <= dirs@.len(),
        forall|k: int|
            0 <= k < at ==> !((#[trigger] views(dirs@)[k]).len() == dir@.len() && path_before(
                views(dirs@)[k],
                dir@,
            )),
        at < dirs@.len() ==> views(dirs@)[at as int].len() == dir@.len() && path_before(
            views(dirs@)[at as int],
            dir@,
        ),
{
    let mut at: usize = 0;
    while at < dirs.len()
        invariant
            at <= dirs@.len(),
            forall|k: int|
                0 <= k < at ==> !((#[trigger] views(dirs@)[k]).len() == dir@.len()
                    && path_before(views(dirs@)[k], dir@)),
        decreases dirs@.len() - at,
    {
        proof {
            assert(views(dirs@)[at as int] == dirs@[at as int]@);
        }
        if dirs[at].depth() == dir.depth() && dirs[at].comes_before(dir) {
            return at;
        }
        at = at + 1;
    }
    at
}

/// The directories to look at after the given sources have been moved
/// away: every directory above a source, each once, deepest first, and
/// those of one depth in descending order of their paths.
pub fn cleanup_empty_dirs(paths: &Vec<SourcePath>) -> (dirs: Vec<SourcePath>)
    ensures
        forall|i: int|
            0 <= i < dirs@.len() ==> is_candidate(views(paths@), #[trigger] views(dirs@)[i]),
        forall|dir: Seq<Seq<char>>| #[trigger]
            is_candidate(views(paths@), dir) ==> listed(views(dirs@), dir),
        distinct(views(dirs@)),
        deepest_first(views(dirs@)),
        siblings_descend(views(dirs@)),
{
    let ghost all = views(paths@);
    let n: usize = paths.len();
    let most: usize = greatest_depth(paths);
    let mut dirs: Vec<SourcePath> = Vec::new();
    let mut depth: usize = most;
    proof {
        assert forall|dir: Seq<Seq<char>>| #[trigger]
            found_by(all, n as int, dir) && dir.len() >= depth implies listed(
            views(dirs@),
            dir,
        ) by {
            let j = choose|j: int| 0 <= j < n && j < all.len() && lies_above(dir, #[trigger] all[j]);
            assert(all[j].len() <= most);
        }
    }
    while depth > 1
        invariant
            all == views(paths@),
            n == paths@.len(),
            forall|i: int|
                0 <= i < dirs@.len() ==> found_by(all, n as int, #[trigger] views(dirs@)[i]) && views(
                    dirs@,
                )[i].len() >= depth,
            forall|dir: Seq<Seq<char>>| #[trigger]
                found_by(all, n as int, dir) && dir.len() >= depth ==> listed(views(dirs@), dir),
            distinct(views(dirs@)),
            in_turn(views(dirs@)),
        decreases depth,
    {
        let d: usize = depth - 1;
        let mut j: usize = 0;
        while j < n
            invariant
                all == views(paths@),
                n == paths@.len(),
                j <= n,
                d >= 1,
                forall|i: int|
                    0 <= i < dirs@.len() ==> found_by(all, n as int, #[trigger] views(dirs@)[i])
                        && views(dirs@)[i].len() >= d,
                forall|dir: Seq<Seq<char>>| #[trigger]
                    found_by(all, n as int, dir) && dir.len() > d ==> listed(views(dirs@), dir),
                forall|dir: Seq<Seq<char>>| #[trigger]
                    found_by(all, j as int, dir) && dir.len() == d ==> listed(views(dirs@), dir),
                distinct(views(dirs@)),
                in_turn(views(dirs@)),
            decreases n - j,
        {
            let path = &paths[j];
            let ghost before = views(dirs@);
            proof {
                assert(all[j as int] == path@);
            }
            if path.depth() > d && with_parent(path) {
                let dir = prefix(path, d);
                proof {
                    assert(lies_above(dir@, all[j as int]));
                    assert(found_by(all, n as int, dir@));
                }
                if !is_listed(&dirs, &dir) {
                    let at = slot(&dirs, &dir);
                    let ghost new = dir@;
                    dirs.insert(at, dir);
                    proof {
                        let after = views(dirs@);
                        assert(after =~= before.insert(at as int, new));
                        assert forall|x: Seq<Seq<char>>| listed(before, x) implies listed(
                            after,
                            x,
                        ) by {
                            let i = choose|i: int| 0 <= i < before.len() && #[trigger] before[i] == x;
                            if i < at {
                                assert(after[i] == x);
                            } else {
                                assert(after[i + 1] == x);
                            }
                        }
                        assert(after[at as int] == new);
                        assert(listed(after, new));
                        assert forall|a: int, b: int|
                            0 <= a < after.len() && 0 <= b < after.len() && #[trigger] after[a]
                                == #[trigger] after[b] implies a == b by {
                            let oa = if a < at { a } else { a - 1 };
                            let ob = if b < at { b } else { b - 1 };
                            if a != at && b != at {
                                assert(before[oa] == before[ob]);
                            } else if a != at {
                                assert(before[oa] == new);
                                assert(listed(before, new));
                            } else if b != at {
                                assert(before[ob] == new);
                                assert(listed(before, new));
                            }
                        }
                        assert forall|a: int, b: int| 0 <= a < b < after.len() implies turn_before(
                            #[trigger] after[a],
                            #[trigger] after[b],
                        ) by {
                            let oa = if a < at { a } else { a - 1 };
                            let ob = if b < at { b } else { b - 1 };
                            if a != at && b != at {
                                assert(turn_before(before[oa], before[ob]));
                            } else if b == at {
                                assert(before[a].len() >= d);
                                if before[a].len() == d {
                                    assert(!path_before(before[a], new));
                                    if before[a] == new {
                                        assert(listed(before, new));
                                    }
                                    lemma_path_order_total(before[a], new);
                                }
                            } else {
                                assert(before[at as int].len() == d);
                                assert(path_before(before[at as int], new));
                                assert(before[ob].len() >= d);
                                if ob > at {
                                    assert(turn_before(before[at as int], before[ob]));
                                    lemma_path_order_transitive(
                                        before[ob],
                                        before[at as int],
                                        new,
                                    );
                                }
                            }
                        }
                        assert forall|i: int| 0 <= i < after.len() implies found_by(
                            all,
                            n as int,
                            #[trigger] after[i],
                        ) && after[i].len() >= d by {
                            if i < at {
                                assert(before[i] == after[i]);
                            } else if i > at {
                                assert(before[i - 1] == after[i]);
                            }
                        }
                    }
                }
            }
            proof {
                let after = views(dirs@);
                assert forall|x: Seq<Seq<char>>| #[trigger]
                    found_by(all, j as int + 1, x) && x.len() == d implies listed(after, x) by {
                    let k = choose|k: int|
                        0 <= k < j as int + 1 && k < all.len() && lies_above(x, #[trigger] all[k]);
                    if k < j {
                        assert(found_by(all, j as int, x));
                    } else {
                        assert(x == path@.take(d as int));
                    }
                }
            }
            j = j + 1;
        }
        proof {
            assert forall|x: Seq<Seq<char>>| #[trigger]
                found_by(all, n as int, x) && x.len() >= d implies listed(views(dirs@), x) by {
                if x.len() == d {
                } else {
                    assert(x.len() > d);
                }
            }
        }
        depth = d;
    }
    proof {
        let last = views(dirs@);
        assert forall|x: Seq<Seq<char>>| #[trigger] is_candidate(all, x) implies listed(last, x) by {
            let k = choose|k: int| 0 <= k < n && k < all.len() && lies_above(x, #[trigger] all[k]);
            assert(x.len() >= 1);
            assert(found_by(all, n as int, x));
        }
        assert forall|a: int, b: int| 0 <= a < b < last.len() implies (#[trigger] last[a]).len() >= (
        #[trigger] last[b]).len() by {
            assert(turn_before(last[a], last[b]));
        }
        assert forall|a: int, b: int|
            0 <= a < b < last.len() && (#[trigger] last[a]).len() == (
            #[trigger] last[b]).len() implies path_before(last[b], last[a]) by {
            assert(turn_before(last[a], last[b]));
        }
    }
    dirs
}

} // verus!
