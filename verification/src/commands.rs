//! The command selectors of the tool and the per-command flags the
//! dispatcher consults before running one.

use vstd::prelude::*;

verus! {

/// The scanning commands.
#[derive(Debug, PartialEq, Eq, Structural, Clone, Copy)]
pub enum SonarCommand {
    /// Gets metadata from the source code.
    Run,
}

impl SonarCommand {
    /// Whether this command needs the metadata store initialized first.
    pub fn check_metadata_is_initialized(&self) -> (r: bool)
        ensures
            r == false,
    {
        match self {
            SonarCommand::Run => false,
        }
    }

    /// Whether this command must run on the audit branch.
    pub fn check_correct_branch(&self) -> (r: bool)
        ensures
            r == true,
    {
        match self {
            SonarCommand::Run => true,
        }
    }
}

/// The utility commands.
#[derive(Debug, PartialEq, Eq, Structural, Clone, Copy)]
pub enum ToolsCommands {
    /// Opens a file from metadata in the code editor.
    Open,
    /// Customizes the package file for a log level.
    PackageJson,
}

impl ToolsCommands {
    /// Whether this command needs the metadata store initialized first.
    pub fn check_metadata_is_initialized(&self) -> (r: bool)
        ensures
            r == (*self == ToolsCommands::Open),
    {
        match self {
            ToolsCommands::Open => true,
            ToolsCommands::PackageJson => false,
        }
    }

    /// Whether this command must run on the audit branch.
    pub fn check_correct_branch(&self) -> (r: bool)
        ensures
            r == false,
    {
        match self {
            ToolsCommands::Open => false,
            ToolsCommands::PackageJson => false,
        }
    }
}

} // verus!
