use vstd::prelude::*;

verus! {

/// Every way a lookup or a memory operation can fail.
#[derive(Debug, Clone, Copy, PartialEq, Eq, Structural)]
pub enum MemError {
    /// No window, process or module matched the name.
    NotFound,
    /// The handle did not refer to a live window.
    InvalidHandle,
    /// The process handle was already released.
    HandleClosed,
    /// The operating system refused the requested access.
    PermissionDenied,
    /// The operating system refused the transfer, or the address range
    /// cannot be represented.
    AddressInvalid,
    /// The transfer moved another number of bytes than was asked for.
    ShortTransfer,
    /// No terminating zero byte came within the scan limit.
    UnterminatedString,
}

impl MemError {
    /// A short description of the failure.
    pub fn describe(&self) -> (r: &'static str) {
        match self {
            MemError::NotFound => "no match for the given name",
            MemError::InvalidHandle => "the handle is not a valid window handle",
            MemError::HandleClosed => "the process handle was already released",
            MemError::PermissionDenied => "access to the process was refused",
            MemError::AddressInvalid => "the address range could not be accessed",
            MemError::ShortTransfer => "fewer bytes were transferred than requested",
            MemError::UnterminatedString => "no string terminator within the scan limit",
        }
    }
}

} // verus!
