//! The failures that the daemon knows.

use vstd::prelude::*;
use vstd::string::*;

verus! {

/// What can go wrong while profiles are read or applied.
#[derive(Clone, Copy, Debug, PartialEq, Eq, Structural)]
pub enum AppError {
    /// A control file could not be read, or did not hold text.
    DeviceReadFailure,
    /// A control file could not be opened or written while a profile was applied.
    DeviceWriteFailure,
    /// The configuration file exists and is malformed.
    ConfigParseFailure,
    /// The configuration derived from the hardware could not be written.
    ConfigPersistFailure,
    /// Neither the configuration file nor the bus gave any profile.
    NoProfilesAvailable,
}

impl AppError {
    /// The text shown to the user for this failure.
    pub open spec fn message_text(self) -> Seq<char> {
        match self {
            AppError::DeviceReadFailure => "Error reading sysfs file"@,
            AppError::DeviceWriteFailure => "Error writing to sysfs file"@,
            AppError::ConfigParseFailure => "Error parsing RON from file"@,
            AppError::ConfigPersistFailure => "Error saving profiles to file"@,
            AppError::NoProfilesAvailable => "No profiles exist"@,
        }
    }

    /// The text shown to the user for this failure.
    pub fn message(&self) -> (text: String)
        ensures
            text@ == self.message_text(),
    {
        match self {
            AppError::DeviceReadFailure => String::from_str("Error reading sysfs file"),
            AppError::DeviceWriteFailure => String::from_str("Error writing to sysfs file"),
            AppError::ConfigParseFailure => String::from_str("Error parsing RON from file"),
            AppError::ConfigPersistFailure => String::from_str("Error saving profiles to file"),
            AppError::NoProfilesAvailable => String::from_str("No profiles exist"),
        }
    }
}

} // verus!
