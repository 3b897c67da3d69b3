//! Shell completion scripts.

use vstd::prelude::*;

verus! {

/// The shells a completion script can be written for.
#[derive(Debug, Clone, Copy, PartialEq, Eq, Structural)]
pub enum ShellKind {
    Bash,
    Elvish,
    Fish,
    PowerShell,
    Zsh,
}

/// `completion`: the shell to write the script for.
pub struct Cmd {
    pub shell: ShellKind,
}

} // verus!
