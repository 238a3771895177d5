use vstd::prelude::*;

verus! {

/// Why an operation on the canvas state was refused.
#[derive(Clone, Copy, Debug, PartialEq, Eq, Structural)]
pub enum AppStateError {
    /// The cell lies outside the grid.
    OutOfBounds,
    /// The color index does not select a palette entry.
    InvalidColor,
    /// No actor has this identifier.
    NoSuchUser,
    /// The actor has not verified its account.
    Unverified,
    /// The actor must wait this many more seconds before drawing again.
    CooldownActive(u64),
    /// Another actor already has this name.
    NameTaken,
    /// The name is too short or too long.
    InvalidUsername,
    /// The password is too short or too long.
    InvalidPassword,
    /// The e-mail address is not well formed.
    InvalidEmail,
    /// The grid handed to the constructor does not fit its dimensions or palette.
    InvalidGrid,
    /// Signups are restricted to the institution and the address is not one
    /// of its addresses.
    NotInstitutional,
}

} // verus!
