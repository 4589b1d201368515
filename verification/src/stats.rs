//! Point-in-time statistics over the store: rooms tallied by status and
//! the number of applications still pending.

use vstd::prelude::*;
use crate::application::{Application, ApplicationStatus};
use crate::counting::count_where;
use crate::room::{Room, RoomStatus};

verus! {

/// How many rooms of `rooms` carry `status`.
pub open spec fn rooms_with_status(rooms: Seq<Room>, status: RoomStatus) -> int {
    count_where(rooms, |r: Room| r.status == status)
}

/// How many applications of `apps` are still pending.
pub open spec fn pending_applications(apps: Seq<Application>) -> int {
    count_where(apps, |a: Application| a.status == ApplicationStatus::Pending)
}

/// Counts of rooms by status, and of pending applications.
#[derive(Clone, Copy, Debug, PartialEq, Eq, Structural)]
pub struct RoomStats {
    pub available_rooms: i64,
    pub occupied_rooms: i64,
    pub reserved_rooms: i64,
    pub pending_applications: i64,
}

} // verus!
