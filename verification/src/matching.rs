//! The eligibility filter: a pure predicate deciding whether an applicant
//! may occupy a room, and a first-fit search over a candidate list.

use vstd::prelude::*;
use crate::profile::StudentProfile;
use crate::room::{Room, RoomStatus};

verus! {

/// Eligibility of `profile` for `room`. All clauses must hold: the room is
/// available and has a free slot, and each restriction that is set matches
/// the profile. A function of its two arguments and nothing else.
pub open spec fn spec_is_compatible(room: Room, profile: StudentProfile) -> bool {
    &&& room.status == RoomStatus::Available
    &&& room.current_occupants < room.capacity
    &&& (room.sex_restriction@ == "any"@ || room.sex_restriction@ == profile.gender@)
    &&& (match room.faculty_restriction {
        Some(f) => f@ == profile.faculty@,
        None => true,
    })
    &&& (match room.course_restriction {
        Some(c) => c == profile.course,
        None => true,
    })
}

/// Two calls on equal inputs decide alike: eligibility reads nothing but
/// its arguments, so the verdict is a function of them.
pub proof fn lemma_is_compatible_deterministic(
    room1: Room,
    profile1: StudentProfile,
    room2: Room,
    profile2: StudentProfile,
)
    requires
        room1 == room2,
        profile1 == profile2,
    ensures
        spec_is_compatible(room1, profile1) == spec_is_compatible(room2, profile2),
{
}

/// First-fit matching of applicants to rooms. Stateless: both operations
/// are pure and leave their arguments untouched.
pub struct MatchingService;

impl MatchingService {
    /// Decides [`spec_is_compatible`], and nothing else: no side effects,
    /// no I/O.
    pub fn is_compatible(room: &Room, profile: &StudentProfile) -> (r: bool)
        ensures
            r == spec_is_compatible(*room, *profile),
    {
        if !(matches!(room.status, RoomStatus::Available)) {
            return false;
        }
        if room.current_occupants >= room.capacity {
            return false;
        }
        if !(room.sex_restriction == "any".to_owned()) && !(room.sex_restriction
            == profile.gender) {
            return false;
        }
        if let Some(faculty) = &room.faculty_restriction {
            if !(*faculty == profile.faculty) {
                return false;
            }
        }
        if let Some(course) = room.course_restriction {
            if course != profile.course {
                return false;
            }
        }
        true
    }

    /// The first candidate, in the order supplied by the caller, that is
    /// compatible with `profile`; `None` when no candidate qualifies. The
    /// candidate order is the caller's: no ranking happens here.
    pub fn find_best_room<'a>(profile: &StudentProfile, rooms: &'a [Room]) -> (r: Option<
        &'a Room,
    >)
        ensures
            match r {
                Some(room) => exists|i: int|
                    {
                        &&& 0 <= i < rooms@.len()
                        &&& *room == rooms@[i]
                        &&& spec_is_compatible(rooms@[i], *profile)
                        &&& forall|j: int|
                            0 <= j < i ==> !spec_is_compatible(rooms@[j], *profile)
                    },
                None => forall|j: int|
                    0 <= j < rooms@.len() ==> !spec_is_compatible(rooms@[j], *profile),
            },
            r is Some <==> exists|i: int|
                0 <= i < rooms@.len() && spec_is_compatible(rooms@[i], *profile),
    {
        let n = rooms.len();
        let mut k: usize = 0;
        while k < n
            invariant
                n == rooms@.len(),
                k <= n,
                forall|j: int| 0 <= j < k ==> !spec_is_compatible(rooms@[j], *profile),
            decreases n - k,
        {
            let room = &rooms[k];
            if Self::is_compatible(room, profile) {
                return Some(room);
            }
            k += 1;
        }
        None
    }
}

} // verus!
