//! Applying one destination to one source, step by step.
//!
//! The library decides and the caller acts: the caller performs the
//! step it is handed, reports with one `bool` how it went (the answer of
//! a question, or whether an operation succeeded), and is handed the
//! next step, until the step is `Finish`.

use crate::mode::Mode;
use crate::paths::{joined, SourcePath};
use crate::text::{decimal_nat, u64_to_decimal};
use vstd::prelude::*;
use vstd::string::StrSliceExecFns;
use vstd::string::StringExecFns;

verus! {

/// How the handling of one file ended.
#[derive(Copy, Clone, PartialEq, Eq, Structural, Debug)]
pub enum Outcome {
    /// The destination could not be rendered.
    RenderFailed,
    /// The mode's operation was carried out.
    Applied,
    /// The properties were shown.
    Shown,
    /// Source and destination are the same file on disk.
    SameFile,
    /// The destination exists and may not be replaced.
    DestinationExists,
    /// The destination exists and could not be removed.
    RemoveFailed,
    /// A dry run: this is where a real run would start to write.
    DryRun,
    /// The destination's directory could not be made.
    ParentFailed,
    /// The mode's operation failed.
    Failed,
}

/// What the caller is to do next.
#[derive(Copy, Clone, PartialEq, Eq, Structural, Debug)]
pub enum Step {
    /// Render the destination from the file's table.
    Render,
    /// Find out whether source and destination are the same file on
    /// disk; where that cannot be found out, the answer is no.
    CompareFiles,
    /// Find out whether the destination exists, be it as a link whose
    /// target is missing.
    ProbeDestination,
    /// Remove the destination.
    RemoveDestination,
    /// Make sure the destination's directory exists, with all that is
    /// missing above it.
    CreateParent,
    /// Rename the source to the destination.
    Rename,
    /// Copy the source's content to the destination.
    CopyFile,
    /// Make the destination a symbolic link to the source.
    SymLink,
    /// Make the destination a hard link to the source.
    HardLink,
    /// Show the properties of the source.
    ShowProperties,
    /// Nothing more is to be done for this file.
    Finish(Outcome),
}

impl Step {
    /// Whether the step writes to the filesystem.
    pub open spec fn writes(self) -> bool {
        self == Step::RemoveDestination || self.builds()
    }

    /// Whether the step makes something new on the filesystem.
    pub open spec fn builds(self) -> bool {
        self == Step::CreateParent || self == Step::Rename || self == Step::CopyFile || self
            == Step::SymLink || self == Step::HardLink
    }

    /// Whether nothing follows the step.
    pub open spec fn is_finish(self) -> bool {
        self is Finish
    }

    /// Whether nothing follows the step.
    pub fn is_final(&self) -> (yes: bool)
        ensures
            yes == self.is_finish(),
    {
        match self {
            Step::Finish(_) => true,
            _ => false,
        }
    }
}

/// The step that follows a destination that was rendered: showing the
/// properties in `Info` mode, else the first safety check.
pub open spec fn once_rendered(mode: Mode) -> Step {
    if mode == Mode::Info {
        Step::ShowProperties
    } else {
        Step::CompareFiles
    }
}

/// The operation of a mode.
pub open spec fn operation(mode: Mode) -> Step {
    match mode {
        Mode::Move => Step::Rename,
        Mode::Copy => Step::CopyFile,
        Mode::SymLink => Step::SymLink,
        Mode::HardLink => Step::HardLink,
        Mode::Info => Step::ShowProperties,
    }
}

/// What follows once the way is clear: a dry run ends here, a real run
/// goes on to the destination's directory.
pub open spec fn once_clear(dry_run: bool) -> Step {
    if dry_run {
        Step::Finish(Outcome::DryRun)
    } else {
        Step::CreateParent
    }
}

/// The step that follows `step`, given how `step` went.
pub open spec fn next_step(mode: Mode, force: bool, dry_run: bool, step: Step, answer: bool) -> Step {
    match step {
        Step::Render => if answer {
            once_rendered(mode)
        } else {
            Step::Finish(Outcome::RenderFailed)
        },
        Step::CompareFiles => if answer {
            Step::Finish(Outcome::SameFile)
        } else {
            Step::ProbeDestination
        },
        Step::ProbeDestination => if !answer {
            once_clear(dry_run)
        } else if force {
            Step::RemoveDestination
        } else {
            Step::Finish(Outcome::DestinationExists)
        },
        Step::RemoveDestination => if answer {
            once_clear(dry_run)
        } else {
            Step::Finish(Outcome::RemoveFailed)
        },
        Step::CreateParent => if answer {
            operation(mode)
        } else {
            Step::Finish(Outcome::ParentFailed)
        },
        Step::Rename | Step::CopyFile | Step::SymLink | Step::HardLink => if answer {
            Step::Finish(Outcome::Applied)
        } else {
            Step::Finish(Outcome::Failed)
        },
        Step::ShowProperties => Step::Finish(Outcome::Shown),
        Step::Finish(outcome) => Step::Finish(outcome),
    }
}

/// The step reached after the first `count` answers of `answers`,
/// starting with the rendering of the destination.
pub open spec fn step_after(
    mode: Mode,
    force: bool,
    dry_run: bool,
    answers: Seq<bool>,
    count: nat,
) -> Step
    decreases count,
{
    if count == 0 {
        Step::Render
    } else {
        next_step(
            mode,
            force,
            dry_run,
            step_after(mode, force, dry_run, answers, (count - 1) as nat),
            answers[count - 1],
        )
    }
}

/// In a dry run nothing is ever made: no directory, no file, no link.
/// (A destination that is in the way is still removed under `force`,
/// before the dry run ends the handling of the file.)
pub proof fn lemma_dry_run_builds_nothing(mode: Mode, force: bool, answers: Seq<bool>, count: nat)
    ensures
        !step_after(mode, force, true, answers, count).builds(),
        step_after(mode, force, true, answers, count) != Step::Finish(Outcome::Applied),
    decreases count,
{
    if count > 0 {
        lemma_dry_run_builds_nothing(mode, force, answers, (count - 1) as nat);
    }
}

/// Without `force`, a file whose destination exists is skipped with
/// nothing written: whatever the later answers, no step writes, and the
/// handling ends with `DestinationExists`.
pub proof fn lemma_existing_destination_is_kept(
    mode: Mode,
    dry_run: bool,
    answers: Seq<bool>,
    count: nat,
)
    requires
        mode != Mode::Info,
        answers.len() >= 3,
        answers[0],
        !answers[1],
        answers[2],
    ensures
        !step_after(mode, false, dry_run, answers, count).writes(),
        count >= 3 ==> step_after(mode, false, dry_run, answers, count) == Step::Finish(
            Outcome::DestinationExists,
        ),
    decreases count,
{
    if count > 0 {
        lemma_existing_destination_is_kept(mode, dry_run, answers, (count - 1) as nat);
        if count == 3 {
            assert(step_after(mode, false, dry_run, answers, 0) == Step::Render);
            assert(step_after(mode, false, dry_run, answers, 1) == Step::CompareFiles);
            assert(step_after(mode, false, dry_run, answers, 2) == Step::ProbeDestination);
        }
    }
}

/// Without `force` nothing is ever removed.
pub proof fn lemma_no_force_removes_nothing(
    mode: Mode,
    dry_run: bool,
    answers: Seq<bool>,
    count: nat,
)
    ensures
        step_after(mode, false, dry_run, answers, count) != Step::RemoveDestination,
    decreases count,
{
    if count > 0 {
        lemma_no_force_removes_nothing(mode, dry_run, answers, (count - 1) as nat);
    }
}

/// A file that is its own destination is skipped with nothing written.
pub proof fn lemma_same_file_is_kept(
    mode: Mode,
    force: bool,
    dry_run: bool,
    answers: Seq<bool>,
    count: nat,
)
    requires
        mode != Mode::Info,
        answers.len() >= 2,
        answers[0],
        answers[1],
    ensures
        !step_after(mode, force, dry_run, answers, count).writes(),
        count >= 2 ==> step_after(mode, force, dry_run, answers, count) == Step::Finish(
            Outcome::SameFile,
        ),
    decreases count,
{
    if count > 0 {
        lemma_same_file_is_kept(mode, force, dry_run, answers, (count - 1) as nat);
        if count == 2 {
            assert(step_after(mode, force, dry_run, answers, 0) == Step::Render);
            assert(step_after(mode, force, dry_run, answers, 1) == Step::CompareFiles);
        }
    }
}

/// A file whose destination cannot be rendered is skipped with nothing
/// written.
pub proof fn lemma_failed_render_is_skipped(
    mode: Mode,
    force: bool,
    dry_run: bool,
    answers: Seq<bool>,
    count: nat,
)
    requires
        answers.len() >= 1,
        !answers[0],
    ensures
        !step_after(mode, force, dry_run, answers, count).writes(),
        count >= 1 ==> step_after(mode, force, dry_run, answers, count) == Step::Finish(
            Outcome::RenderFailed,
        ),
    decreases count,
{
    if count > 0 {
        lemma_failed_render_is_skipped(mode, force, dry_run, answers, (count - 1) as nat);
    }
}

/// Showing properties writes nothing.
pub proof fn lemma_info_writes_nothing(force: bool, dry_run: bool, answers: Seq<bool>, count: nat)
    ensures
        !step_after(Mode::Info, force, dry_run, answers, count).writes(),
        count >= 2 ==> step_after(Mode::Info, force, dry_run, answers, count).is_finish(),
        count == 1 ==> step_after(Mode::Info, force, dry_run, answers, count)
            == Step::ShowProperties || step_after(Mode::Info, force, dry_run, answers, count)
            == Step::Finish(Outcome::RenderFailed),
    decreases count,
{
    if count > 0 {
        lemma_info_writes_nothing(force, dry_run, answers, (count - 1) as nat);
    }
}

/// The handling of a file ends after six answers at most.
pub proof fn lemma_handling_ends(mode: Mode, force: bool, dry_run: bool, answers: Seq<bool>)
    ensures
        step_after(mode, force, dry_run, answers, 6).is_finish(),
{
    let s0 = step_after(mode, force, dry_run, answers, 0);
    let s1 = step_after(mode, force, dry_run, answers, 1);
    let s2 = step_after(mode, force, dry_run, answers, 2);
    let s3 = step_after(mode, force, dry_run, answers, 3);
    let s4 = step_after(mode, force, dry_run, answers, 4);
    let s5 = step_after(mode, force, dry_run, answers, 5);
    assert(s1 == next_step(mode, force, dry_run, s0, answers[0]));
    assert(s2 == next_step(mode, force, dry_run, s1, answers[1]));
    assert(s3 == next_step(mode, force, dry_run, s2, answers[2]));
    assert(s4 == next_step(mode, force, dry_run, s3, answers[3]));
    assert(s5 == next_step(mode, force, dry_run, s4, answers[4]));
    assert(s1 == Step::ShowProperties || s1 == Step::CompareFiles || s1.is_finish());
    assert(s2 == Step::ProbeDestination || s2.is_finish());
    assert(s3 == Step::RemoveDestination || s3 == Step::CreateParent || s3.is_finish());
    assert(s4 == Step::CreateParent || s4.is_finish() || (s4 == operation(mode) && mode
        != Mode::Info));
    assert(s5.is_finish() || (s5 == operation(mode) && mode != Mode::Info));
}

/// The step with which the handling of a file begins.
pub fn begin() -> (step: Step)
    ensures
        step == Step::Render,
{
    Step::Render
}

/// The step that follows `step`, given how `step` went.
pub fn apply_mode(mode: Mode, force: bool, dry_run: bool, step: Step, answer: bool) -> (next: Step)
    ensures
        next == next_step(mode, force, dry_run, step, answer),
{
    match step {
        Step::Render => {
            if !answer {
                Step::Finish(Outcome::RenderFailed)
            } else {
                match mode {
                    Mode::Info => Step::ShowProperties,
                    _ => Step::CompareFiles,
                }
            }
        },
        Step::CompareFiles => {
            if answer {
                Step::Finish(Outcome::SameFile)
            } else {
                Step::ProbeDestination
            }
        },
        Step::ProbeDestination => {
            if answer && !force {
                Step::Finish(Outcome::DestinationExists)
            } else if answer {
                Step::RemoveDestination
            } else if dry_run {
                Step::Finish(Outcome::DryRun)
            } else {
                Step::CreateParent
            }
        },
        Step::RemoveDestination => {
            if !answer {
                Step::Finish(Outcome::RemoveFailed)
            } else if dry_run {
                Step::Finish(Outcome::DryRun)
            } else {
                Step::CreateParent
            }
        },
        Step::CreateParent => {
            if !answer {
                Step::Finish(Outcome::ParentFailed)
            } else {
                match mode {
                    Mode::Move => Step::Rename,
                    Mode::Copy => Step::CopyFile,
                    Mode::SymLink => Step::SymLink,
                    Mode::HardLink => Step::HardLink,
                    Mode::Info => Step::ShowProperties,
                }
            }
        },
        Step::Rename | Step::CopyFile | Step::SymLink | Step::HardLink => {
            if answer {
                Step::Finish(Outcome::Applied)
            } else {
                Step::Finish(Outcome::Failed)
            }
        },
        Step::ShowProperties => Step::Finish(Outcome::Shown),
        Step::Finish(outcome) => Step::Finish(outcome),
    }
}

/// The relative path from the directory `base` to `path`, as the
/// pathdiff crate computes it from the two texts, or `None` where it
/// finds none.
pub uninterp spec fn relative_path(path: Seq<char>, base: Seq<char>) -> Option<Seq<char>>;

/// Calls `pathdiff::diff_paths`. Trusted: the result is the one named
/// by `relative_path`, a function of the two paths alone.
#[verifier::external_body]
fn diff_paths(path: &str, base: &str) -> (relative: Option<String>)
    ensures
        match relative {
            Some(r) => relative_path(path@, base@) == Some(r@),
            None => relative_path(path@, base@).is_none(),
        },
{
    pathdiff::diff_paths(path, base).and_then(|found| found.to_str().map(String::from))
}

/// The target of a symbolic link: an absolute source as it is; else the
/// resolved source where absolute targets are asked for or no relative
/// path was found; else the relative path.
pub open spec fn chosen_target(
    src: Seq<char>,
    src_is_absolute: bool,
    src_resolved: Seq<char>,
    relative: Option<Seq<char>>,
    force_absolute: bool,
) -> Seq<char> {
    if src_is_absolute {
        src
    } else if force_absolute {
        src_resolved
    } else {
        match relative {
            Some(r) => r,
            None => src_resolved,
        }
    }
}

/// Picks the target of a symbolic link, given the relative path from
/// the link's directory to the resolved source where one was found.
pub fn choose_target(
    src: &SourcePath,
    src_resolved: &str,
    relative: Option<String>,
    force_absolute: bool,
) -> (target: String)
    ensures
        target@ == chosen_target(
            joined(src@),
            src@.len() > 0 && src@[0] == seq!['/'],
            src_resolved@,
            match relative {
                Some(r) => Some(r@),
                None => None,
            },
            force_absolute,
        ),
{
    if src.is_absolute() {
        src.to_text()
    } else if force_absolute {
        src_resolved.to_owned()
    } else {
        match relative {
            Some(r) => r,
            None => src_resolved.to_owned(),
        }
    }
}

/// Whether the target of a link to `src` depends on where the link
/// stands: only a relative source that need not be linked absolutely is
/// looked for from the link's directory.
pub fn wants_relative_target(src: &SourcePath, force_absolute: bool) -> (yes: bool)
    ensures
        yes == (!(src@.len() > 0 && src@[0] == seq!['/']) && !force_absolute),
{
    !src.is_absolute() && !force_absolute
}

/// The relative path from the directory `link_dir` to `src_resolved`,
/// where there is one.
pub fn relative_target(src_resolved: &str, link_dir: &str) -> (relative: Option<String>)
    ensures
        match relative {
            Some(r) => relative_path(src_resolved@, link_dir@) == Some(r@),
            None => relative_path(src_resolved@, link_dir@).is_none(),
        },
{
    diff_paths(src_resolved, link_dir)
}

/// The target of the symbolic link that stands for `src` in the
/// directory `link_dir`. `src_resolved` is `src` made absolute and
/// `link_dir` the absolute directory of the link; `link_dir` is not
/// looked at unless `wants_relative_target` holds.
pub fn symlink_target(
    src: &SourcePath,
    src_resolved: &str,
    link_dir: &str,
    force_absolute: bool,
) -> (target: String)
    ensures
        target@ == chosen_target(
            joined(src@),
            src@.len() > 0 && src@[0] == seq!['/'],
            src_resolved@,
            relative_path(src_resolved@, link_dir@),
            force_absolute,
        ),
{
    if wants_relative_target(src, force_absolute) {
        choose_target(src, src_resolved, relative_target(src_resolved, link_dir), force_absolute)
    } else {
        choose_target(src, src_resolved, None, force_absolute)
    }
}

/// The line that shows one property: the key in double braces, then
/// the value in quotes. A value longer than `max_display_len` (where
/// that is not 0) is cut in the middle, keeping half of
/// `max_display_len` characters at either end, and its full length is
/// added.
pub open spec fn shown(key: Seq<char>, value: Seq<char>, max_display_len: nat) -> Seq<char> {
    if max_display_len > 0 && value.len() > max_display_len {
        "{{"@ + key + "}} \""@ + value.take((max_display_len / 2) as int) + " ... "@ + value.skip(
            value.len() - max_display_len / 2,
        ) + "\" ("@ + decimal_nat(value.len()) + " chars total)"@
    } else {
        "{{"@ + key + "}} \""@ + value + "\""@
    }
}

/// The line that shows one property.
pub fn display_line(key: &str, value: &str, max_display_len: usize) -> (line: String)
    ensures
        line@ == shown(key@, value@, max_display_len as nat),
{
    let len: usize = value.unicode_len();
    let mut line = String::from_str("{{");
    line.append(key);
    line.append("}} \"");
    if max_display_len > 0 && len > max_display_len {
        let half: usize = max_display_len / 2;
        let count = u64_to_decimal(len as u64);
        proof {
            assert(value@.subrange(0, half as int) =~= value@.take(half as int));
            assert(value@.subrange(len - half, len as int) =~= value@.skip(len - half));
        }
        line.append(value.substring_char(0, half));
        line.append(" ... ");
        line.append(value.substring_char(len - half, len));
        line.append("\" (");
        line.append(count.as_str());
        line.append(" chars total)");
    } else {
        line.append(value);
        line.append("\"");
    }
    line
}

} // verus!
