//! The store of rooms: validated insertion and the searches the engine
//! runs. Occupancy is never mutated here; that is the capacity ledger's
//! sole right.

use vstd::prelude::*;
use crate::counting::lemma_filter_take_step;
use crate::errors::ValidationError;
use crate::matching::spec_is_compatible;
use crate::profile::StudentProfile;
use crate::room::{valid_sex_restriction, Room, RoomStatus};

verus! {

/// Whether some room in `rooms` carries the identity `id`.
pub open spec fn has_room_id(rooms: Seq<Room>, id: u128) -> bool {
    exists|i: int| 0 <= i < rooms.len() && rooms[i].id == id
}

/// The store-level pre-filter for available rooms: available status and
/// every set restriction matching the query. Occupancy is not consulted
/// here; under the store invariant a full room is never `Available`, so
/// the pre-filter already returns exactly the compatible rooms.
pub open spec fn matches_search(
    room: Room,
    faculty: Option<&String>,
    course: Option<i32>,
    sex: &String,
) -> bool {
    &&& room.status == RoomStatus::Available
    &&& (match room.faculty_restriction {
        None => true,
        Some(f) => faculty matches Some(q) && f@ == q@,
    })
    &&& (match room.course_restriction {
        None => true,
        Some(c) => course matches Some(q) && c == q,
    })
    &&& (room.sex_restriction@ == sex@ || room.sex_restriction@ == "any"@)
}

/// The collection of rooms, identified uniquely and each obeying its
/// occupancy invariant.
pub struct RoomRepository {
    pub rooms: Vec<Room>,
}

impl View for RoomRepository {
    type V = Seq<Room>;

    open spec fn view(&self) -> Seq<Room> {
        self.rooms@
    }
}

impl RoomRepository {
    /// Every room obeys its own invariant and no identity repeats.
    pub open spec fn wf(self) -> bool {
        &&& forall|i: int| 0 <= i < self@.len() ==> (#[trigger] self@[i]).wf()
        &&& forall|i: int, j: int|
            0 <= i < j < self@.len() ==> (#[trigger] self@[i]).id != (#[trigger] self@[j]).id
    }

    pub fn new() -> (r: Self)
        ensures
            r@ == Seq::<Room>::empty(),
            r.wf(),
    {
        RoomRepository { rooms: Vec::new() }
    }

    /// Whether a room with identity `id` exists.
    pub fn contains_id(&self, id: u128) -> (r: bool)
        ensures
            r == has_room_id(self@, id),
    {
        let n = self.rooms.len();
        let mut i: usize = 0;
        while i < n
            invariant
                n == self@.len(),
                i <= n,
                forall|j: int| 0 <= j < i ==> (#[trigger] self@[j]).id != id,
            decreases n - i,
        {
            if self.rooms[i].id == id {
                return true;
            }
            i += 1;
        }
        false
    }

    /// Admits `room` into the store after validation: a fresh identity, a
    /// positive capacity, no occupants yet, a status that does not
    /// contradict the (empty) occupancy, and a sex restriction from the
    /// fixed set of values or "any". Returns the stored room.
    pub fn create(&mut self, room: Room) -> (r: Result<Room, ValidationError>)
        requires
            old(self).wf(),
        ensures
            final(self).wf(),
            r == Err::<Room, ValidationError>(ValidationError::DuplicateId) <==> has_room_id(
                old(self)@,
                room.id,
            ),
            r == Err::<Room, ValidationError>(ValidationError::InvalidCapacity) <==> (!has_room_id(
                old(self)@,
                room.id,
            ) && room.capacity < 1),
            r == Err::<Room, ValidationError>(ValidationError::InvalidOccupancy) <==> (!has_room_id(
                old(self)@,
                room.id,
            ) && room.capacity >= 1 && room.current_occupants != 0),
            r == Err::<Room, ValidationError>(ValidationError::InvalidStatus) <==> (!has_room_id(
                old(self)@,
                room.id,
            ) && room.capacity >= 1 && room.current_occupants == 0 && room.status
                == RoomStatus::Occupied),
            r == Err::<Room, ValidationError>(ValidationError::InvalidSexRestriction) <==> (
            !has_room_id(old(self)@, room.id) && room.capacity >= 1 && room.current_occupants == 0
                && room.status != RoomStatus::Occupied && !valid_sex_restriction(
                room.sex_restriction@,
            )),
            match r {
                Ok(stored) => {
                    &&& stored == room
                    &&& final(self)@ == old(self)@.push(room)
                },
                Err(_) => final(self)@ == old(self)@,
            },
    {
        if self.contains_id(room.id) {
            return Err(ValidationError::DuplicateId);
        }
        if room.capacity < 1 {
            return Err(ValidationError::InvalidCapacity);
        }
        if room.current_occupants != 0 {
            return Err(ValidationError::InvalidOccupancy);
        }
        if matches!(room.status, RoomStatus::Occupied) {
            return Err(ValidationError::InvalidStatus);
        }
        if !(room.sex_restriction == "male".to_owned() || room.sex_restriction
            == "female".to_owned() || room.sex_restriction == "any".to_owned()) {
            return Err(ValidationError::InvalidSexRestriction);
        }
        let stored = room.clone();
        self.rooms.push(room);
        Ok(stored)
    }

    /// The room carrying identity `id`, if any.
    pub fn find_by_id(&self, id: u128) -> (r: Option<Room>)
        ensures
            match r {
                Some(room) => exists|i: int|
                    0 <= i < self@.len() && (#[trigger] self@[i]).id == id && room == self@[i],
                None => !has_room_id(self@, id),
            },
            r is Some <==> has_room_id(self@, id),
    {
        let n = self.rooms.len();
        let mut i: usize = 0;
        while i < n
            invariant
                n == self@.len(),
                i <= n,
                forall|j: int| 0 <= j < i ==> (#[trigger] self@[j]).id != id,
            decreases n - i,
        {
            if self.rooms[i].id == id {
                return Some(self.rooms[i].clone());
            }
            i += 1;
        }
        None
    }

    /// All rooms passing the store pre-filter for the given query, in
    /// store order.
    pub fn find_available(
        &self,
        faculty: Option<&String>,
        course: Option<i32>,
        sex: &String,
    ) -> (r: Vec<Room>)
        ensures
            r@ == self@.filter(|room: Room| matches_search(room, faculty, course, sex)),
    {
        let ghost pred = |room: Room| matches_search(room, faculty, course, sex);
        let mut out: Vec<Room> = Vec::new();
        let n = self.rooms.len();
        let mut i: usize = 0;
        proof {
            assert(self@.take(0).filter(pred) =~= Seq::<Room>::empty()) by {
                reveal(Seq::filter);
            }
        }
        while i < n
            invariant
                n == self@.len(),
                i <= n,
                out@ == self@.take(i as int).filter(pred),
                pred == (|room: Room| matches_search(room, faculty, course, sex)),
            decreases n - i,
        {
            let room = &self.rooms[i];
            let matches_faculty = match (&room.faculty_restriction, &faculty) {
                (None, _) => true,
                (Some(f), Some(q)) => *f == **q,
                (Some(_), None) => false,
            };
            let matches_course = match (room.course_restriction, course) {
                (None, _) => true,
                (Some(c), Some(q)) => c == q,
                (Some(_), None) => false,
            };
            let is_match = matches!(room.status, RoomStatus::Available) && matches_faculty
                && matches_course && (room.sex_restriction == *sex || room.sex_restriction
                == "any".to_owned());
            proof {
                lemma_filter_take_step(self@, pred, i as int);
            }
            if is_match {
                out.push(self.rooms[i].clone());
            }
            i += 1;
        }
        proof {
            assert(self@.take(n as int) =~= self@);
        }
        out
    }
}

/// Under the store invariant the pre-filter coincides with full
/// eligibility: an available room is never full, so the occupancy clause
/// of [`spec_is_compatible`] comes for free.
pub proof fn lemma_search_is_compatibility(rooms: Seq<Room>, profile: StudentProfile)
    requires
        forall|i: int| 0 <= i < rooms.len() ==> (#[trigger] rooms[i]).wf(),
    ensures
        forall|i: int|
            0 <= i < rooms.len() ==> matches_search(
                #[trigger] rooms[i],
                Some(&profile.faculty),
                Some(profile.course),
                &profile.gender,
            ) == spec_is_compatible(rooms[i], profile),
{
    assert forall|i: int| 0 <= i < rooms.len() implies matches_search(
        #[trigger] rooms[i],
        Some(&profile.faculty),
        Some(profile.course),
        &profile.gender,
    ) == spec_is_compatible(rooms[i], profile) by {
        let room = rooms[i];
        if room.status == RoomStatus::Available {
            assert(room.current_occupants != room.capacity);
        }
    }
}

} // verus!
