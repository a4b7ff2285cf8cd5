//! The configuration of a run and the mode that it resolves to.

use vstd::prelude::*;

verus! {

/// How matches are presented. Resolved once for a run and not changed after.
pub struct ModeConfig {
    /// Suppress output; only whether there is a match is of interest.
    pub quiet: bool,
    /// The unit of matching is the whole file, not the line.
    pub whole_files: bool,
    /// Emit the matched spans, not the text around them.
    pub only_matches: bool,
    /// The capture group to extract, by index or by name.
    pub group: Option<String>,
    /// Emit the units that do not match.
    pub no_match: bool,
    /// Emit file names, not content.
    pub filenames_only: bool,
    /// Emit no file name in front of content.
    pub no_filenames: bool,
    /// Highlight file names and matches.
    pub colors: bool,
    /// When replacing, write to the output and leave the source as it is.
    pub stdout: bool,
    /// Pass over content that is not UTF-8 without a diagnostic.
    pub ignore_non_utf8: bool,
}

/// The variants of the mode matrix. Exactly one applies to a configuration.
#[derive(Clone, Copy, Debug, PartialEq, Eq, Structural)]
pub enum Mode {
    GroupExtract,
    Invert,
    FilenamesOnly,
    QuietExistenceOnly,
    Default { only_matches: bool },
}

/// The mode of a configuration. The first that applies wins: group
/// extraction, inverted match, file names only, quiet, default.
pub open spec fn resolve(config: ModeConfig) -> Mode {
    if config.group is Some {
        Mode::GroupExtract
    } else if config.no_match {
        Mode::Invert
    } else if config.filenames_only {
        Mode::FilenamesOnly
    } else if config.quiet {
        Mode::QuietExistenceOnly
    } else {
        Mode::Default { only_matches: config.only_matches }
    }
}

/// The run names files and shows no content: file names only are asked for
/// and no group is. This is decided for a file as a whole, before any unit
/// of it is looked at.
pub open spec fn names_files(config: ModeConfig) -> bool {
    config.group is None && config.filenames_only
}

impl ModeConfig {
    /// The configuration with nothing set: each match is shown in its line,
    /// behind the name of its file.
    pub fn new() -> (config: ModeConfig)
        ensures
            config == (ModeConfig {
                quiet: false,
                whole_files: false,
                only_matches: false,
                group: None,
                no_match: false,
                filenames_only: false,
                no_filenames: false,
                colors: false,
                stdout: false,
                ignore_non_utf8: false,
            }),
    {
        ModeConfig {
            quiet: false,
            whole_files: false,
            only_matches: false,
            group: None,
            no_match: false,
            filenames_only: false,
            no_filenames: false,
            colors: false,
            stdout: false,
            ignore_non_utf8: false,
        }
    }

    /// Whether the run names files and shows no content.
    pub fn names_files(&self) -> (b: bool)
        ensures
            b == names_files(*self),
    {
        self.group.is_none() && self.filenames_only
    }

    /// The mode that this configuration resolves to.
    pub fn mode(&self) -> (mode: Mode)
        ensures
            mode == resolve(*self),
    {
        if self.group.is_some() {
            Mode::GroupExtract
        } else if self.no_match {
            Mode::Invert
        } else if self.filenames_only {
            Mode::FilenamesOnly
        } else if self.quiet {
            Mode::QuietExistenceOnly
        } else {
            Mode::Default { only_matches: self.only_matches }
        }
    }
}

} // verus!
