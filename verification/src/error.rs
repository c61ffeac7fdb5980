use vstd::prelude::*;

verus! {

/// Why a run was abandoned. Every error ends the run: nothing is retried.
#[derive(Clone, Copy, Debug, PartialEq, Eq, Structural)]
pub enum SwitchError {
    /// The installation directory does not exist.
    DirectoryNotFound,
    /// The installation directory exists but could not be listed.
    DirectoryUnreadable,
    /// The line of input is not a non-negative decimal number.
    InvalidInput,
    /// The number read is larger than the number of versions on offer.
    IndexOutOfRange,
    /// The input ended before a line was read.
    InputClosed,
    /// The existing `current` entry could not be removed.
    LinkRemovalFailed,
    /// The new `current` link could not be created.
    LinkCreationFailed,
}

impl SwitchError {
    /// What the operator is told of this error.
    pub open spec fn text(self) -> &'static str {
        match self {
            SwitchError::DirectoryNotFound => "installation directory not found",
            SwitchError::DirectoryUnreadable => "installation directory cannot be read",
            SwitchError::InvalidInput => "input is not a version index",
            SwitchError::IndexOutOfRange => "invalid version index",
            SwitchError::InputClosed => "input ended before a choice was made",
            SwitchError::LinkRemovalFailed => "cannot remove the current link",
            SwitchError::LinkCreationFailed => "cannot create the current link",
        }
    }

    /// What the operator is told of this error.
    pub fn message(&self) -> (s: String)
        ensures
            s@ == self.text()@,
    {
        let text = match self {
            SwitchError::DirectoryNotFound => "installation directory not found",
            SwitchError::DirectoryUnreadable => "installation directory cannot be read",
            SwitchError::InvalidInput => "input is not a version index",
            SwitchError::IndexOutOfRange => "invalid version index",
            SwitchError::InputClosed => "input ended before a choice was made",
            SwitchError::LinkRemovalFailed => "cannot remove the current link",
            SwitchError::LinkCreationFailed => "cannot create the current link",
        };
        String::from_str(text)
    }
}

} // verus!
