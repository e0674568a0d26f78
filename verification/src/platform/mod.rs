//! Platform rules: what the operating system reports is turned into storage
//! devices, mount verdicts and privilege verdicts here. Reading the system
//! (files, commands, device I/O) is left to the caller.

use vstd::prelude::*;

pub mod linux;
pub mod macos;
pub mod windows;

verus! {

/// Errors of the platform rules.
#[derive(Debug, Clone)]
pub enum PlatformError {
    /// A sysfs attribute that the rules need could not be read.
    ReadFailed { path: String },
    /// The capacity of a device does not fit in 64 bits.
    CapacityOverflow { path: String },
    /// The diskutil command did not succeed.
    DiskutilFailed,
    /// The diskutil output is not a property list.
    PlistParseFailed,
    /// The diskutil property list is not a dictionary.
    PlistNotDictionary,
}

/// Mathematical value of a platform error.
pub enum PlatformErrorView {
    ReadFailed { path: Seq<char> },
    CapacityOverflow { path: Seq<char> },
    DiskutilFailed,
    PlistParseFailed,
    PlistNotDictionary,
}

impl View for PlatformError {
    type V = PlatformErrorView;

    open spec fn view(&self) -> PlatformErrorView {
        match self {
            PlatformError::ReadFailed { path } => PlatformErrorView::ReadFailed { path: path@ },
            PlatformError::CapacityOverflow { path } => PlatformErrorView::CapacityOverflow {
                path: path@,
            },
            PlatformError::DiskutilFailed => PlatformErrorView::DiskutilFailed,
            PlatformError::PlistParseFailed => PlatformErrorView::PlistParseFailed,
            PlatformError::PlistNotDictionary => PlatformErrorView::PlistNotDictionary,
        }
    }
}

/// Administrator privileges on Unix: the effective user is root.
pub fn has_admin_privileges(effective_uid: u32) -> (b: bool)
    ensures
        b == (effective_uid == 0),
{
    effective_uid == 0
}

} // verus!
