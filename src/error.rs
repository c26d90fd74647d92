//! The ways a registry operation can be refused.

use vstd::prelude::*;

verus! {

/// Why a registry operation was refused. None of these is fatal: the caller
/// reports it and the records stay as they were.
#[derive(Clone, Copy, Debug, PartialEq, Eq, Structural)]
pub enum RegistryError {
    /// A record that the operation needs does not exist.
    NotFound,
    /// The student already belongs to a team in the guild.
    AlreadyAffiliated,
    /// The operation needs a team membership the student does not have.
    NotAffiliated,
    /// The team is confirmed: its membership and invitations are frozen.
    TeamLocked,
    /// The operation would take the team past its configured capacity.
    CapacityExceeded,
    /// The student holds no invitation to the team.
    NotInvited,
    /// The name is already used by another team of the guild.
    NameConflict,
    /// The identifier is already held by a live team.
    AlreadyInUse,
    /// The identifier has no number after the guild's prefix.
    MalformedIdentifier,
    /// Every identifier number has been issued and none is free for reuse.
    IdentifiersExhausted,
}

} // verus!
