use vstd::prelude::*;

use vstd::string::StringExecFns;

verus! {

/// Failure to serve the version file.
#[derive(Debug)]
pub enum VersionError {
    /// The version file could not be found.
    VersionFileNotFound,
    /// Some other failure while reading the version file, described by
    /// its message.
    Other { error: String },
}

/// The message given when the version file is missing.
pub open spec fn version_file_not_found_note() -> Seq<char> {
    "The version file could not be found."@
}

/// The leading part of the message given for any other failure.
pub open spec fn version_error_prefix() -> Seq<char> {
    "An error occurred while retrieving the version file: "@
}

impl VersionError {
    /// Classify a failed read of the version file: a not-found failure
    /// has its own variant, anything else keeps its message.
    pub fn from_kind(not_found: bool, message: String) -> (r: VersionError)
        ensures
            not_found ==> r is VersionFileNotFound,
            !not_found ==> (r matches VersionError::Other { error } && error@ == message@),
    {
        if not_found {
            VersionError::VersionFileNotFound
        } else {
            VersionError::Other { error: message }
        }
    }

    /// A human-readable description of the failure.
    pub fn message(&self) -> (r: String)
        ensures
            *self is VersionFileNotFound ==> r@ == version_file_not_found_note(),
            *self matches VersionError::Other { error } ==> r@ == version_error_prefix() + error@,
    {
        match self {
            VersionError::VersionFileNotFound => String::from_str(
                "The version file could not be found.",
            ),
            VersionError::Other { error } => {
                let prefix = String::from_str("An error occurred while retrieving the version file: ");
                prefix.concat(error.as_str())
            },
        }
    }
}

} // verus!
