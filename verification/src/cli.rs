//! The options of a run, as given on the command line, and what they ask for.

use crate::file_lister::{filter_by_version, is_sorted_from, kept_by, sort_by_path, FileInfo};
use crate::file_version::{parsed_version, reason_text, FileVersion, ParseVersionError};
use vstd::prelude::*;

verus! {

/// The options of a run.
#[derive(Debug, PartialEq, Eq)]
pub struct CliArgs {
    /// The shell pattern that file names must match.
    pub pattern: String,
    /// Whether the file versions are read and shown.
    pub include_file_version: bool,
    /// Whether the files are sorted by path.
    pub sort_by_path: bool,
    /// The lowest version that is listed.
    pub min_version: Option<String>,
    /// The highest version that is listed.
    pub max_version: Option<String>,
    /// The directory that is searched, in place of the current one.
    pub directory: Option<String>,
    /// A file that the list is written to as well.
    pub output_file: Option<String>,
    /// Whether only the list itself is printed.
    pub quiet: bool,
}

impl Clone for CliArgs {
    fn clone(&self) -> (copy: CliArgs)
        ensures
            copy == *self,
    {
        CliArgs {
            pattern: self.pattern.clone(),
            include_file_version: self.include_file_version,
            sort_by_path: self.sort_by_path,
            min_version: self.min_version.clone(),
            max_version: self.max_version.clone(),
            directory: self.directory.clone(),
            output_file: self.output_file.clone(),
            quiet: self.quiet,
        }
    }
}

/// Which of the two version bounds is meant.
#[derive(Debug, Clone, Copy, PartialEq, Eq, Structural)]
pub enum Bound {
    Minimum,
    Maximum,
}

/// The version bounds of a run.
#[derive(Debug, Clone, Copy, PartialEq, Eq, Structural)]
pub struct VersionBounds {
    pub min_version: Option<FileVersion>,
    pub max_version: Option<FileVersion>,
}

/// A version bound that is no version.
#[derive(Debug, PartialEq, Eq)]
pub struct InvalidBound {
    /// The bound that was given wrongly.
    pub bound: Bound,
    /// What is wrong with it.
    pub error: ParseVersionError,
}

impl Clone for InvalidBound {
    fn clone(&self) -> (copy: InvalidBound)
        ensures
            copy == *self,
    {
        InvalidBound { bound: self.bound, error: self.error.clone() }
    }
}

/// The word for a bound in a message.
pub open spec fn bound_text(bound: Bound) -> Seq<char> {
    match bound {
        Bound::Minimum => "minimum"@,
        Bound::Maximum => "maximum"@,
    }
}

/// The bound that a text gives: none where there is no text, else the version
/// it denotes or the reason why it denotes none.
pub open spec fn bound_of(text: Option<String>) -> Result<Option<FileVersion>, ParseVersionError> {
    match text {
        Some(text) => match parsed_version(text@) {
            Ok(version) => Ok(Some(version)),
            Err(reason) => Err(ParseVersionError { input: text, reason }),
        },
        None => Ok(None),
    }
}

impl InvalidBound {
    /// The message: which bound, what was given for it, why that is no version,
    /// and the form that was expected.
    pub open spec fn message_text(self) -> Seq<char> {
        "Invalid "@ + bound_text(self.bound) + " version '"@ + self.error.input@ + "': "@
            + reason_text(self.error.reason)
            + ". Expected format: major.minor.build.private (e.g., 1.2.3.4)"@
    }

    /// A sentence for the user that names the bound, the input and the expected
    /// form.
    pub fn message(&self) -> (text: String)
        ensures
            text@ == self.message_text(),
    {
        let mut text = String::new();
        text.append("Invalid ");
        match self.bound {
            Bound::Minimum => text.append("minimum"),
            Bound::Maximum => text.append("maximum"),
        }
        text.append(" version '");
        text.append(self.error.input.as_str());
        text.append("': ");
        text.append(self.error.reason_message());
        text.append(". Expected format: major.minor.build.private (e.g., 1.2.3.4)");
        assert(text@ =~= self.message_text());
        text
    }
}

impl VersionBounds {
    /// Whether at least one bound is given.
    pub open spec fn is_bounded(self) -> bool {
        self.min_version is Some || self.max_version is Some
    }

    /// The files that a run lists under these bounds, in their order: all of
    /// them where no bound is given, else those whose version lies within the
    /// bounds.
    pub open spec fn chosen(self, files: Seq<FileInfo>) -> Seq<FileInfo> {
        if self.is_bounded() {
            kept_by(files, self.min_version, self.max_version)
        } else {
            files
        }
    }
}

impl CliArgs {
    /// Whether a version bound is given.
    pub open spec fn has_bound(self) -> bool {
        self.min_version is Some || self.max_version is Some
    }

    /// Turns the reading of versions on where a version bound is given, since a
    /// bound cannot be held against a version that was not read. Nothing else
    /// changes.
    pub fn normalize(&mut self)
        ensures
            final(self).include_file_version == (old(self).include_file_version || old(
                self,
            ).has_bound()),
            final(self).pattern == old(self).pattern,
            final(self).sort_by_path == old(self).sort_by_path,
            final(self).min_version == old(self).min_version,
            final(self).max_version == old(self).max_version,
            final(self).directory == old(self).directory,
            final(self).output_file == old(self).output_file,
            final(self).quiet == old(self).quiet,
    {
        if self.min_version.is_some() || self.max_version.is_some() {
            self.include_file_version = true;
        }
    }

    /// Parses the two version bounds, the minimum first. Fails on the first of
    /// them that is given and is no version, and says which one it was.
    pub fn version_bounds(&self) -> (bounds: Result<VersionBounds, InvalidBound>)
        ensures
            match (bound_of(self.min_version), bound_of(self.max_version)) {
                (Ok(min_version), Ok(max_version)) => bounds == Ok::<_, InvalidBound>(
                    VersionBounds { min_version, max_version },
                ),
                (Err(error), _) => bounds is Err && bounds->Err_0.bound == Bound::Minimum
                    && bounds->Err_0.error.input@ == error.input@ && bounds->Err_0.error.reason
                    == error.reason,
                (Ok(_), Err(error)) => bounds is Err && bounds->Err_0.bound == Bound::Maximum
                    && bounds->Err_0.error.input@ == error.input@ && bounds->Err_0.error.reason
                    == error.reason,
            },
    {
        let min_version = match &self.min_version {
            Some(text) => match FileVersion::from_str(text.as_str()) {
                Ok(version) => Some(version),
                Err(error) => {
                    return Err(InvalidBound { bound: Bound::Minimum, error });
                },
            },
            None => None,
        };
        let max_version = match &self.max_version {
            Some(text) => match FileVersion::from_str(text.as_str()) {
                Ok(version) => Some(version),
                Err(error) => {
                    return Err(InvalidBound { bound: Bound::Maximum, error });
                },
            },
            None => None,
        };
        Ok(VersionBounds { min_version, max_version })
    }

    /// Brings the files that were found into the form in which they are listed:
    /// filtered by version where a bound is given, then sorted by path where
    /// that is asked for.
    pub fn arrange(&self, files: Vec<FileInfo>, bounds: &VersionBounds) -> (listed: Vec<FileInfo>)
        ensures
            if self.sort_by_path {
                exists|origin: Seq<int>| is_sorted_from(bounds.chosen(files@), listed@, origin)
            } else {
                listed@ == bounds.chosen(files@)
            },
    {
        let chosen = if bounds.min_version.is_some() || bounds.max_version.is_some() {
            filter_by_version(files, bounds.min_version, bounds.max_version)
        } else {
            files
        };
        assert(chosen@ == bounds.chosen(files@));
        if self.sort_by_path {
            sort_by_path(chosen)
        } else {
            chosen
        }
    }
}

} // verus!
