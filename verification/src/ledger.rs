//! The capacity ledger: the sole authority over a room's occupancy count.
//! Its reservation is a single conditional update — find the room, check
//! the precondition, mutate — performed under exclusive access to the
//! store, so no interleaving can slip between the check and the
//! increment. Two requests racing for the last slot therefore serialize,
//! and at most one reservation succeeds.

use vstd::prelude::*;
use crate::errors::CapacityError;
use crate::room::{Room, RoomStatus};
use crate::room_repo::RoomRepository;

verus! {

/// The atomic occupancy operations. Stateless; the store is handed in.
pub struct CapacityLedger;

impl CapacityLedger {
    /// Increments the occupancy of the room `room_id` — only if that room
    /// exists, is available and has a free slot — and derives its status,
    /// as one indivisible update. Returns the post-update room. Fails with
    /// `CapacityExceeded` when no room matched the precondition: a normal
    /// outcome under contention, and the store is then untouched.
    pub fn reserve_slot(rooms: &mut RoomRepository, room_id: u128) -> (r: Result<
        Room,
        CapacityError,
    >)
        requires
            old(rooms).wf(),
        ensures
            final(rooms).wf(),
            match r {
                Ok(room) => exists|i: int|
                    {
                        &&& 0 <= i < old(rooms)@.len()
                        &&& (#[trigger] old(rooms)@[i]).id == room_id
                        &&& old(rooms)@[i].can_reserve()
                        &&& room == old(rooms)@[i].after_reserve()
                        &&& final(rooms)@ == old(rooms)@.update(i, old(rooms)@[i].after_reserve())
                    },
                Err(e) => {
                    &&& e == CapacityError::CapacityExceeded
                    &&& final(rooms)@ == old(rooms)@
                    &&& forall|i: int|
                        0 <= i < old(rooms)@.len() ==> !((#[trigger] old(rooms)@[i]).id == room_id
                            && old(rooms)@[i].can_reserve())
                },
            },
            r is Ok <==> exists|i: int|
                0 <= i < old(rooms)@.len() && (#[trigger] old(rooms)@[i]).id == room_id && old(
                    rooms,
                )@[i].can_reserve(),
    {
        let n = rooms.rooms.len();
        let mut i: usize = 0;
        while i < n
            invariant
                old(rooms).wf(),
                *rooms == *old(rooms),
                n == rooms@.len(),
                i <= n,
                forall|j: int| 0 <= j < i ==> (#[trigger] rooms@[j]).id != room_id,
            decreases n - i,
        {
            if rooms.rooms[i].id == room_id {
                let reservable = matches!(rooms.rooms[i].status, RoomStatus::Available)
                    && rooms.rooms[i].current_occupants < rooms.rooms[i].capacity;
                if reservable {
                    let mut updated = rooms.rooms[i].clone();
                    updated.current_occupants = updated.current_occupants + 1;
                    if updated.current_occupants == updated.capacity {
                        updated.status = RoomStatus::Occupied;
                    }
                    let out = updated.clone();
                    proof {
                        assert(updated == old(rooms)@[i as int].after_reserve());
                    }
                    rooms.rooms[i] = updated;
                    proof {
                        let v = final(rooms)@;
                        assert forall|p: int| 0 <= p < v.len() implies (#[trigger] v[p]).wf() by {
                            if p != i as int {
                                assert(v[p] == old(rooms)@[p]);
                            }
                        }
                        assert forall|p: int, q: int| 0 <= p < q < v.len() implies (
                        #[trigger] v[p]).id != (#[trigger] v[q]).id by {
                            assert(v[p].id == old(rooms)@[p].id);
                            assert(v[q].id == old(rooms)@[q].id);
                        }
                    }
                    return Ok(out);
                } else {
                    proof {
                        assert forall|p: int|
                            0 <= p < rooms@.len() implies !((#[trigger] rooms@[p]).id == room_id
                            && rooms@[p].can_reserve()) by {
                            if p < i as int {
                            } else if p == i as int {
                            } else {
                                assert(rooms@[i as int].id != rooms@[p].id);
                            }
                        }
                    }
                    return Err(CapacityError::CapacityExceeded);
                }
            }
            i += 1;
        }
        Err(CapacityError::CapacityExceeded)
    }

    /// Decrements the occupancy of the room `room_id` — only if that room
    /// exists and has at least one occupant — as the same kind of
    /// indivisible update; a full room becomes available again. Used when
    /// a previously approved assignment is voided. Fails with
    /// `CapacityExceeded` when no room matched the precondition.
    pub fn release_slot(rooms: &mut RoomRepository, room_id: u128) -> (r: Result<
        Room,
        CapacityError,
    >)
        requires
            old(rooms).wf(),
        ensures
            final(rooms).wf(),
            match r {
                Ok(room) => exists|i: int|
                    {
                        &&& 0 <= i < old(rooms)@.len()
                        &&& (#[trigger] old(rooms)@[i]).id == room_id
                        &&& old(rooms)@[i].current_occupants > 0
                        &&& room == old(rooms)@[i].after_release()
                        &&& final(rooms)@ == old(rooms)@.update(i, old(rooms)@[i].after_release())
                    },
                Err(e) => {
                    &&& e == CapacityError::CapacityExceeded
                    &&& final(rooms)@ == old(rooms)@
                    &&& forall|i: int|
                        0 <= i < old(rooms)@.len() ==> !((#[trigger] old(rooms)@[i]).id == room_id
                            && old(rooms)@[i].current_occupants > 0)
                },
            },
    {
        let n = rooms.rooms.len();
        let mut i: usize = 0;
        while i < n
            invariant
                old(rooms).wf(),
                *rooms == *old(rooms),
                n == rooms@.len(),
                i <= n,
                forall|j: int| 0 <= j < i ==> (#[trigger] rooms@[j]).id != room_id,
            decreases n - i,
        {
            if rooms.rooms[i].id == room_id {
                if rooms.rooms[i].current_occupants > 0 {
                    let mut updated = rooms.rooms[i].clone();
                    updated.current_occupants = updated.current_occupants - 1;
                    if matches!(updated.status, RoomStatus::Occupied) {
                        updated.status = RoomStatus::Available;
                    }
                    let out = updated.clone();
                    proof {
                        assert(updated == old(rooms)@[i as int].after_release());
                    }
                    rooms.rooms[i] = updated;
                    proof {
                        let v = final(rooms)@;
                        assert forall|p: int| 0 <= p < v.len() implies (#[trigger] v[p]).wf() by {
                            if p != i as int {
                                assert(v[p] == old(rooms)@[p]);
                            }
                        }
                        assert forall|p: int, q: int| 0 <= p < q < v.len() implies (
                        #[trigger] v[p]).id != (#[trigger] v[q]).id by {
                            assert(v[p].id == old(rooms)@[p].id);
                            assert(v[q].id == old(rooms)@[q].id);
                        }
                    }
                    return Ok(out);
                } else {
                    proof {
                        assert forall|p: int|
                            0 <= p < rooms@.len() implies !((#[trigger] rooms@[p]).id == room_id
                            && rooms@[p].current_occupants > 0) by {
                            if p > i as int {
                                assert(rooms@[i as int].id != rooms@[p].id);
                            }
                        }
                    }
                    return Err(CapacityError::CapacityExceeded);
                }
            }
            i += 1;
        }
        Err(CapacityError::CapacityExceeded)
    }
}

} // verus!
