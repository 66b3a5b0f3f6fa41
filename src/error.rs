//! Errors that the editor core reports to its caller.
use vstd::prelude::*;

verus! {

/// A recoverable failure of an editor command.
#[derive(Debug, Clone, Copy, PartialEq, Eq, Structural)]
pub enum EditorError {
    /// A line or column index beyond the current content.
    OutOfBounds(usize),
    /// Saving a buffer that has no file associated with it.
    NoFileAssociated,
    /// A command issued in a mode that does not accept it.
    InvalidModeTransition,
    /// Building an editor without any buffer.
    EmptyBuffers,
}

} // verus!
