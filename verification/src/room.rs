//! The room data model and its occupancy invariant.

use vstd::prelude::*;

verus! {

/// Lifecycle status of a room. `Occupied` is kept in lockstep with the
/// occupancy count: a room is `Occupied` exactly when it is full.
#[derive(Clone, Copy, Debug, PartialEq, Eq, Structural)]
pub enum RoomStatus {
    Available,
    Occupied,
    Reserved,
}

/// The sex restrictions a room may declare: one of the fixed values, or
/// "any" for no restriction.
pub open spec fn valid_sex_restriction(s: Seq<char>) -> bool {
    s == "male"@ || s == "female"@ || s == "any"@
}

/// A housing unit with a fixed capacity and optional eligibility
/// restrictions. Identity is a plain 128-bit value; callers that use
/// UUIDs convert at the boundary.
pub struct Room {
    pub id: u128,
    pub number: String,
    pub description: String,
    pub photo_url: Option<String>,
    pub capacity: i32,
    pub current_occupants: i32,
    pub faculty_restriction: Option<String>,
    pub course_restriction: Option<i32>,
    pub sex_restriction: String,
    pub status: RoomStatus,
}

impl Room {
    /// The per-room invariant: capacity is positive, occupancy stays within
    /// `0 ..= capacity`, and the status is `Occupied` exactly when the room
    /// is full.
    pub open spec fn wf(self) -> bool {
        &&& 1 <= self.capacity
        &&& 0 <= self.current_occupants <= self.capacity
        &&& (self.status == RoomStatus::Occupied <==> self.current_occupants == self.capacity)
    }

    /// A slot can be reserved only in a room that is available and not full.
    pub open spec fn can_reserve(self) -> bool {
        self.status == RoomStatus::Available && self.current_occupants < self.capacity
    }

    /// This room after the ledger reserves one slot: occupancy one higher,
    /// and the status moved to `Occupied` exactly when that filled the room.
    pub open spec fn after_reserve(self) -> Room {
        Room {
            current_occupants: (self.current_occupants + 1) as i32,
            status: if self.current_occupants + 1 == self.capacity {
                RoomStatus::Occupied
            } else {
                self.status
            },
            ..self
        }
    }

    /// This room after the ledger releases one slot: occupancy one lower;
    /// a previously full room becomes available again.
    pub open spec fn after_release(self) -> Room {
        Room {
            current_occupants: (self.current_occupants - 1) as i32,
            status: if self.status == RoomStatus::Occupied {
                RoomStatus::Available
            } else {
                self.status
            },
            ..self
        }
    }
}

impl Clone for Room {
    fn clone(&self) -> (r: Self)
        ensures
            r == *self,
    {
        Room {
            id: self.id,
            number: self.number.clone(),
            description: self.description.clone(),
            photo_url: match &self.photo_url {
                Some(s) => Some(s.clone()),
                None => None,
            },
            capacity: self.capacity,
            current_occupants: self.current_occupants,
            faculty_restriction: match &self.faculty_restriction {
                Some(s) => Some(s.clone()),
                None => None,
            },
            course_restriction: self.course_restriction,
            sex_restriction: self.sex_restriction.clone(),
            status: self.status,
        }
    }
}

} // verus!
