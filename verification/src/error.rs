//! The failures that an operation on the pipeline can report.

use vstd::prelude::*;

verus! {

/// Why an operation was refused or abandoned.
#[derive(Clone, Copy, Debug, PartialEq, Eq, Structural)]
pub enum Error {
    /// No device carries the logical name that was asked for.
    DeviceNotFound,
    /// The operating system failed an access, or handed back something
    /// that cannot be read as what was asked for.
    IoError,
    /// More bytes were asked for than the buffer holds.
    SizeExceeded,
    /// A buffer is not owned by the side that the operation needs, or a
    /// transfer of ownership did not take effect.
    OwnershipError,
    /// The operation does not fit the state of the pipeline.
    ConfigurationError,
}

impl Error {
    /// The words that describe each failure.
    pub open spec fn words(self) -> Seq<char> {
        match self {
            Error::DeviceNotFound => "no uio device found"@,
            Error::IoError => "device access failed"@,
            Error::SizeExceeded => "Data size exceeds buffer size"@,
            Error::OwnershipError => "Failed to change owner"@,
            Error::ConfigurationError => "operation does not fit the pipeline state"@,
        }
    }

    /// A short description of the failure.
    pub fn message(&self) -> (text: &'static str)
        ensures
            text@ == self.words(),
    {
        match self {
            Error::DeviceNotFound => "no uio device found",
            Error::IoError => "device access failed",
            Error::SizeExceeded => "Data size exceeds buffer size",
            Error::OwnershipError => "Failed to change owner",
            Error::ConfigurationError => "operation does not fit the pipeline state",
        }
    }
}

} // verus!
