//! The editor's modes.
use vstd::prelude::*;

verus! {

/// What keys currently do: move, insert text, extend a selection, or name the
/// motion of a pending delete or yank.
#[derive(Debug, Clone, Copy, PartialEq, Eq, Structural)]
pub enum Mode {
    Normal,
    Insert,
    Visual,
    NormalDelete,
    NormalYank,
}

impl Mode {
    /// Name of the mode, as shown to the user.
    pub fn name(&self) -> (r: &'static str)
        ensures
            *self == Mode::Normal ==> r@ == "Normal"@,
            *self == Mode::Insert ==> r@ == "Insert"@,
            *self == Mode::Visual ==> r@ == "Visual"@,
            *self == Mode::NormalDelete ==> r@ == "NormalDelete"@,
            *self == Mode::NormalYank ==> r@ == "NormalYank"@,
    {
        match self {
            Mode::Normal => "Normal",
            Mode::Insert => "Insert",
            Mode::Visual => "Visual",
            Mode::NormalDelete => "NormalDelete",
            Mode::NormalYank => "NormalYank",
        }
    }
}

impl Default for Mode {
    fn default() -> (r: Mode)
        ensures
            r == Mode::Normal,
    {
        Mode::Normal
    }
}

} // verus!
