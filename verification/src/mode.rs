//! The way a computed destination is applied to a source file.

use vstd::prelude::*;

verus! {

/// What is done with each matched file. One mode holds for a whole run.
#[derive(Copy, Clone, PartialEq, Eq, Structural, Hash, Debug)]
pub enum Mode {
    Move,
    Copy,
    SymLink,
    HardLink,
    Info,
}

impl Default for Mode {
    fn default() -> (mode: Self)
        ensures
            mode == Mode::Move,
    {
        Mode::Move
    }
}

impl Mode {
    /// The command-line name of the mode, as a sequence of characters.
    pub open spec fn name_spec(self) -> Seq<char> {
        match self {
            Mode::Move => "mv"@,
            Mode::Copy => "cp"@,
            Mode::SymLink => "symlink"@,
            Mode::HardLink => "ln"@,
            Mode::Info => "info"@,
        }
    }

    /// The command-line name of the mode.
    pub fn name(&self) -> (name: &'static str)
        ensures
            name@ == self.name_spec(),
    {
        match self {
            Mode::Move => "mv",
            Mode::Copy => "cp",
            Mode::SymLink => "symlink",
            Mode::HardLink => "ln",
            Mode::Info => "info",
        }
    }

    /// The five modes, in the order in which they are offered.
    pub fn value_variants() -> (all: Vec<Mode>)
        ensures
            all@ == seq![Mode::Move, Mode::Copy, Mode::SymLink, Mode::HardLink, Mode::Info],
    {
        vec![Mode::Move, Mode::Copy, Mode::SymLink, Mode::HardLink, Mode::Info]
    }
}

} // verus!
