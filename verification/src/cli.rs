//! The command surface: which subcommand a run of the tool was asked to
//! perform. Argument parsing itself lives with the binary; these are the
//! values it hands over.

use vstd::prelude::*;

use crate::theme::Theme;

verus! {

/// The configuration subcommands.
#[derive(Clone, Copy, Debug, PartialEq, Eq, Structural)]
pub enum ConfigCommand {
    List,
    Edit,
}

/// The subcommands of the tool.
#[derive(Clone, Copy, Debug, PartialEq, Eq, Structural)]
pub enum Commands {
    /// Apply the named theme.
    SetTheme { theme: Theme },
    /// Apply the opposite of the persisted theme.
    Toggle,
    /// Print or edit the configuration.
    Config { command: ConfigCommand },
}

/// One parsed invocation.
#[derive(Clone, Copy, Debug, PartialEq, Eq, Structural)]
pub struct Cli {
    pub command: Commands,
}

} // verus!
