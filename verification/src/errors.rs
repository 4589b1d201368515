//! Failure taxonomy of the engine. Conflicts (a filled room, a finalized
//! application) are expected outcomes under contention, kept distinct from
//! absent references and from malformed input.

use vstd::prelude::*;

verus! {

/// Failure of the capacity ledger's atomic reservation: no room matched
/// the precondition "exists, available, has a free slot". Expected under
/// contention; the caller retries a search, not the same write.
#[derive(Clone, Copy, Debug, PartialEq, Eq, Structural)]
pub enum CapacityError {
    CapacityExceeded,
}

/// Rejection of a room offered for creation.
#[derive(Clone, Copy, Debug, PartialEq, Eq, Structural)]
pub enum ValidationError {
    /// A room with the same identity already exists.
    DuplicateId,
    /// Capacity must be a positive number.
    InvalidCapacity,
    /// A room enters the store empty; its occupancy is built up only by
    /// approvals.
    InvalidOccupancy,
    /// The declared status contradicts the occupancy.
    InvalidStatus,
    /// The sex restriction is not one of the fixed values or "any".
    InvalidSexRestriction,
}

/// Failure of an application transition.
#[derive(Clone, Copy, Debug, PartialEq, Eq, Structural)]
pub enum WorkflowError {
    /// No application carries the given identity.
    NotFound,
    /// The application already reached a terminal status.
    InvalidTransition,
    /// The room could not take another occupant.
    CapacityExceeded,
}

/// Failure of a store insertion: the identity is already taken.
#[derive(Clone, Copy, Debug, PartialEq, Eq, Structural)]
pub enum AlreadyExistsError {
    AlreadyExists,
}

/// Failure of a lookup that was expected to hit: the referenced record
/// is absent.
#[derive(Clone, Copy, Debug, PartialEq, Eq, Structural)]
pub enum NotFoundError {
    NotFound,
}

/// Failure of a search or submission on behalf of an applicant.
#[derive(Clone, Copy, Debug, PartialEq, Eq, Structural)]
pub enum AllocationError {
    /// The applicant's account is absent.
    UserNotFound,
    /// The applicant has no profile to match against.
    ProfileNotFound,
    /// The referenced room is absent.
    RoomNotFound,
    /// The identity offered for a new application is already taken.
    DuplicateApplication,
    /// No available room is compatible with the applicant.
    NoEligibleRoom,
}

} // verus!
