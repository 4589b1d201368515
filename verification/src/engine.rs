//! The allocation orchestrator: the boundary operations of the engine,
//! composed from the eligibility filter, the capacity ledger and the
//! application workflow, over one consistent in-memory store.
//!
//! The store invariant ties the pieces together: every room's occupancy
//! equals the number of approved applications referencing it, stays within
//! capacity, and the room status mirrors fullness. Each operation here
//! holds exclusive access to the store for the span of one logical
//! transition, so a transition commits whole or not at all, and racing
//! requests serialize — which is what lets exactly one of two approvals
//! win the last slot of a room.

use vstd::prelude::*;
use crate::application::{Application, ApplicationStatus};
use crate::application_repo::{has_app_id, ApplicationRepository};
use crate::counting::{
    count_where, lemma_count_where_push, lemma_count_where_take_step, lemma_count_where_update,
    lemma_count_where_zero, lemma_filter_congruent, lemma_filter_empty_means_none,
    lemma_filter_first,
};
use crate::errors::{AllocationError, NotFoundError, AlreadyExistsError, ValidationError, WorkflowError};
use crate::ledger::CapacityLedger;
use crate::matching::{spec_is_compatible, MatchingService};
use crate::profile::{Sex, StudentProfile};
use crate::profile_repo::{has_profile_for, StudentProfileRepository};
use crate::room::{valid_sex_restriction, Room, RoomStatus};
use crate::room_repo::{has_room_id, lemma_search_is_compatibility, matches_search, RoomRepository};
use crate::stats::{pending_applications, rooms_with_status, RoomStats};
use crate::types::{MbtiType, WakeType};
use crate::user::{User, UserRole, UserStatus};
use crate::user_repo::{has_user_email, has_user_id, UserRepository};

verus! {

/// The applications that hold a slot in the room `room_id`: approved and
/// referencing it.
pub open spec fn is_approved_for(room_id: u128) -> spec_fn(Application) -> bool {
    |a: Application| a.status == ApplicationStatus::Approved && a.room_id == room_id
}

/// The engine over one consistent store of rooms, applications, accounts
/// and profiles.
pub struct AllocationEngine {
    pub rooms: RoomRepository,
    pub applications: ApplicationRepository,
    pub users: UserRepository,
    pub profiles: StudentProfileRepository,
}

impl AllocationEngine {
    /// The store invariant, preserved by every operation:
    /// each collection is well formed; every room's occupancy equals the
    /// count of approved applications referencing it (no double counting,
    /// no orphaned increments); and every application references a room
    /// that exists.
    pub open spec fn wf(self) -> bool {
        &&& self.rooms.wf()
        &&& self.applications.wf()
        &&& self.users.wf()
        &&& self.profiles.wf()
        &&& forall|i: int|
            0 <= i < self.rooms@.len() ==> (#[trigger] self.rooms@[i]).current_occupants
                == count_where(self.applications@, is_approved_for(self.rooms@[i].id))
        &&& forall|k: int|
            0 <= k < self.applications@.len() ==> has_room_id(
                self.rooms@,
                (#[trigger] self.applications@[k]).room_id,
            )
    }

    /// An empty store.
    pub fn new() -> (r: Self)
        ensures
            r.wf(),
            r.rooms@ == Seq::<Room>::empty(),
            r.applications@ == Seq::<Application>::empty(),
            r.users@ == Seq::<User>::empty(),
            r.profiles@ == Seq::<StudentProfile>::empty(),
    {
        AllocationEngine {
            rooms: RoomRepository::new(),
            applications: ApplicationRepository::new(),
            users: UserRepository::new(),
            profiles: StudentProfileRepository::new(),
        }
    }

    /// Admits a new room after validation; see
    /// [`RoomRepository::create`] for the exact acceptance rule. Nothing
    /// else in the store moves.
    pub fn create_room(&mut self, room: Room) -> (r: Result<Room, ValidationError>)
        requires
            old(self).wf(),
        ensures
            final(self).wf(),
            final(self).applications@ == old(self).applications@,
            final(self).users@ == old(self).users@,
            final(self).profiles@ == old(self).profiles@,
            r == Err::<Room, ValidationError>(ValidationError::DuplicateId) <==> has_room_id(
                old(self).rooms@,
                room.id,
            ),
            r == Err::<Room, ValidationError>(ValidationError::InvalidCapacity) <==> (!has_room_id(
                old(self).rooms@,
                room.id,
            ) && room.capacity < 1),
            r == Err::<Room, ValidationError>(ValidationError::InvalidOccupancy) <==> (!has_room_id(
                old(self).rooms@,
                room.id,
            ) && room.capacity >= 1 && room.current_occupants != 0),
            r == Err::<Room, ValidationError>(ValidationError::InvalidStatus) <==> (!has_room_id(
                old(self).rooms@,
                room.id,
            ) && room.capacity >= 1 && room.current_occupants == 0 && room.status
                == RoomStatus::Occupied),
            r == Err::<Room, ValidationError>(ValidationError::InvalidSexRestriction) <==> (
            !has_room_id(old(self).rooms@, room.id) && room.capacity >= 1
                && room.current_occupants == 0 && room.status != RoomStatus::Occupied
                && !valid_sex_restriction(room.sex_restriction@)),
            match r {
                Ok(stored) => {
                    &&& stored == room
                    &&& final(self).rooms@ == old(self).rooms@.push(room)
                },
                Err(_) => final(self).rooms@ == old(self).rooms@,
            },
    {
        let r = self.rooms.create(room);
        proof {
            if r is Ok {
                let v = final(self).rooms@;
                let apps = final(self).applications@;
                assert forall|i: int| 0 <= i < v.len() implies (#[trigger] v[i]).current_occupants
                    == count_where(apps, is_approved_for(v[i].id)) by {
                    if i < v.len() - 1 {
                        assert(v[i] == old(self).rooms@[i]);
                    } else {
                        assert(v[i] == room);
                        assert forall|k: int| 0 <= k < apps.len() implies !(is_approved_for(
                            room.id,
                        )(#[trigger] apps[k])) by {
                            assert(has_room_id(old(self).rooms@, apps[k].room_id));
                            let m = choose|m: int|
                                0 <= m < old(self).rooms@.len() && old(self).rooms@[m].id
                                    == apps[k].room_id;
                            assert(apps[k].room_id != room.id);
                        }
                        lemma_count_where_zero(apps, is_approved_for(room.id));
                    }
                }
                assert forall|k: int| 0 <= k < apps.len() implies has_room_id(
                    v,
                    (#[trigger] apps[k]).room_id,
                ) by {
                    let m = choose|m: int|
                        0 <= m < old(self).rooms@.len() && (#[trigger] old(self).rooms@[m]).id
                            == apps[k].room_id;
                    assert(v[m] == old(self).rooms@[m]);
                }
            }
        }
        r
    }

    /// Every room compatible with the applicant's profile, in store
    /// order: the store pre-filters by status and restrictions, and under
    /// the store invariant that pre-filter coincides with full
    /// eligibility, so a full room never appears.
    pub fn search_rooms(&self, user_id: u128) -> (r: Result<Vec<Room>, AllocationError>)
        requires
            self.wf(),
        ensures
            match r {
                Ok(list) => exists|pi: int|
                    {
                        &&& has_user_id(self.users@, user_id)
                        &&& 0 <= pi < self.profiles@.len()
                        &&& (#[trigger] self.profiles@[pi]).user_id == user_id
                        &&& list@ == self.rooms@.filter(
                            |rm: Room| spec_is_compatible(rm, self.profiles@[pi]),
                        )
                    },
                Err(AllocationError::UserNotFound) => !has_user_id(self.users@, user_id),
                Err(AllocationError::ProfileNotFound) => has_user_id(self.users@, user_id)
                    && !has_profile_for(self.profiles@, user_id),
                Err(_) => false,
            },
            r is Ok <==> (has_user_id(self.users@, user_id) && has_profile_for(
                self.profiles@,
                user_id,
            )),
    {
        if self.users.find_by_id(user_id).is_none() {
            return Err(AllocationError::UserNotFound);
        }
        let profile = match self.profiles.get_by_user_id(user_id) {
            None => {
                return Err(AllocationError::ProfileNotFound);
            },
            Some(p) => p,
        };
        let list = self.rooms.find_available(
            Some(&profile.faculty),
            Some(profile.course),
            &profile.gender,
        );
        proof {
            let pi = choose|pi: int|
                0 <= pi < self.profiles@.len() && (#[trigger] self.profiles@[pi]).user_id
                    == user_id && profile.eqv(self.profiles@[pi]);
            let stored = self.profiles@[pi];
            lemma_search_is_compatibility(self.rooms@, profile);
            assert forall|i: int| 0 <= i < self.rooms@.len() implies matches_search(
                #[trigger] self.rooms@[i],
                Some(&profile.faculty),
                Some(profile.course),
                &profile.gender,
            ) == spec_is_compatible(self.rooms@[i], stored) by {
                assert(spec_is_compatible(self.rooms@[i], profile) == spec_is_compatible(
                    self.rooms@[i],
                    stored,
                ));
            }
            lemma_filter_congruent(
                self.rooms@,
                |rm: Room| matches_search(
                    rm,
                    Some(&profile.faculty),
                    Some(profile.course),
                    &profile.gender,
                ),
                |rm: Room| spec_is_compatible(rm, stored),
            );
        }
        Ok(list)
    }

    /// Every application filed by the applicant, in store order.
    pub fn list_applications(&self, user_id: u128) -> (r: Result<Vec<Application>, AllocationError>)
        requires
            self.wf(),
        ensures
            match r {
                Ok(list) => {
                    &&& has_user_id(self.users@, user_id)
                    &&& list@ == self.applications@.filter(|a: Application| a.user_id == user_id)
                },
                Err(e) => {
                    &&& e == AllocationError::UserNotFound
                    &&& !has_user_id(self.users@, user_id)
                },
            },
            r is Ok <==> has_user_id(self.users@, user_id),
    {
        if self.users.find_by_id(user_id).is_none() {
            return Err(AllocationError::UserNotFound);
        }
        Ok(self.applications.find_by_user_id(user_id))
    }

    /// Files a new application: pending, without eligibility re-check and
    /// without reserving capacity — a manual submission is an advisory
    /// request, and the slot is taken only at approval time. Both
    /// identities must resolve and the new identity must be fresh.
    pub fn submit_application(
        &mut self,
        user_id: u128,
        room_id: u128,
        new_id: u128,
        now: i64,
    ) -> (r: Result<Application, AllocationError>)
        requires
            old(self).wf(),
        ensures
            final(self).wf(),
            final(self).rooms@ == old(self).rooms@,
            final(self).users@ == old(self).users@,
            final(self).profiles@ == old(self).profiles@,
            r == Err::<Application, AllocationError>(AllocationError::UserNotFound) <==> !has_user_id(
                old(self).users@,
                user_id,
            ),
            r == Err::<Application, AllocationError>(AllocationError::RoomNotFound) <==> (
            has_user_id(old(self).users@, user_id) && !has_room_id(old(self).rooms@, room_id)),
            r == Err::<Application, AllocationError>(AllocationError::DuplicateApplication) <==> (
            has_user_id(old(self).users@, user_id) && has_room_id(old(self).rooms@, room_id)
                && has_app_id(old(self).applications@, new_id)),
            match r {
                Ok(app) => {
                    &&& app == (Application {
                        id: new_id,
                        user_id,
                        room_id,
                        status: ApplicationStatus::Pending,
                        comment: None,
                        created_at: now,
                    })
                    &&& final(self).applications@ == old(self).applications@.push(app)
                },
                Err(_) => final(self).applications@ == old(self).applications@,
            },
            r is Ok <==> (has_user_id(old(self).users@, user_id) && has_room_id(
                old(self).rooms@,
                room_id,
            ) && !has_app_id(old(self).applications@, new_id)),
            // a filed application is never altered by filing another
            forall|k: int|
                0 <= k < old(self).applications@.len() ==> final(self).applications@[k] == old(
                    self,
                ).applications@[k],
    {
        if self.users.find_by_id(user_id).is_none() {
            return Err(AllocationError::UserNotFound);
        }
        if !self.rooms.contains_id(room_id) {
            return Err(AllocationError::RoomNotFound);
        }
        let app = Application {
            id: new_id,
            user_id,
            room_id,
            status: ApplicationStatus::Pending,
            comment: None,
            created_at: now,
        };
        let ghost app_spec = app;
        match self.applications.create(app) {
            Err(_) => Err(AllocationError::DuplicateApplication),
            Ok(stored) => {
                proof {
                    let apps = final(self).applications@;
                    let v = final(self).rooms@;
                    assert forall|i: int| 0 <= i < v.len() implies (
                    #[trigger] v[i]).current_occupants == count_where(
                        apps,
                        is_approved_for(v[i].id),
                    ) by {
                        lemma_count_where_push(
                            old(self).applications@,
                            is_approved_for(v[i].id),
                            app_spec,
                        );
                    }
                }
                Ok(stored)
            },
        }
    }

    /// Approves a pending application: reserves a slot in its room
    /// through the capacity ledger and finalizes the application, as one
    /// transition — no slot is ever held without an approved application,
    /// and no approval stands without its slot. Fails with `NotFound` for
    /// an absent identity, `InvalidTransition` for an already finalized
    /// application (which stays exactly as it was), and
    /// `CapacityExceeded` when the room cannot take another occupant —
    /// in which case the application remains pending for an administrator
    /// to resolve, and the store is untouched.
    pub fn approve_application(&mut self, application_id: u128, comment: Option<String>) -> (r:
        Result<Application, WorkflowError>)
        requires
            old(self).wf(),
        ensures
            final(self).wf(),
            final(self).users@ == old(self).users@,
            final(self).profiles@ == old(self).profiles@,
            match r {
                Ok(app) => exists|ai: int, ri: int|
                    {
                        &&& 0 <= ai < old(self).applications@.len()
                        &&& (#[trigger] old(self).applications@[ai]).id == application_id
                        &&& old(self).applications@[ai].status == ApplicationStatus::Pending
                        &&& 0 <= ri < old(self).rooms@.len()
                        &&& (#[trigger] old(self).rooms@[ri]).id == old(
                            self,
                        ).applications@[ai].room_id
                        &&& old(self).rooms@[ri].can_reserve()
                        &&& app == old(self).applications@[ai].finalized(
                            ApplicationStatus::Approved,
                            comment,
                        )
                        &&& final(self).applications@ == old(self).applications@.update(ai, app)
                        &&& final(self).rooms@ == old(self).rooms@.update(
                            ri,
                            old(self).rooms@[ri].after_reserve(),
                        )
                    },
                Err(WorkflowError::NotFound) => {
                    &&& !has_app_id(old(self).applications@, application_id)
                    &&& final(self).applications@ == old(self).applications@
                    &&& final(self).rooms@ == old(self).rooms@
                },
                Err(WorkflowError::InvalidTransition) => {
                    &&& exists|ai: int|
                        0 <= ai < old(self).applications@.len() && (
                        #[trigger] old(self).applications@[ai]).id == application_id && old(
                            self,
                        ).applications@[ai].status.spec_is_terminal()
                    &&& final(self).applications@ == old(self).applications@
                    &&& final(self).rooms@ == old(self).rooms@
                },
                Err(WorkflowError::CapacityExceeded) => {
                    &&& exists|ai: int|
                        {
                            &&& 0 <= ai < old(self).applications@.len()
                            &&& (#[trigger] old(self).applications@[ai]).id == application_id
                            &&& old(self).applications@[ai].status == ApplicationStatus::Pending
                            &&& forall|ri: int|
                                0 <= ri < old(self).rooms@.len() ==> !((
                                #[trigger] old(self).rooms@[ri]).id == old(
                                    self,
                                ).applications@[ai].room_id && old(self).rooms@[ri].can_reserve())
                        }
                    &&& final(self).applications@ == old(self).applications@
                    &&& final(self).rooms@ == old(self).rooms@
                },
            },
            // a finalized application never changes again
            forall|k: int|
                0 <= k < old(self).applications@.len() && (
                #[trigger] old(self).applications@[k]).status.spec_is_terminal()
                    ==> final(self).applications@[k] == old(self).applications@[k],
            r is Ok <==> exists|ai: int, ri: int|
                {
                    &&& 0 <= ai < old(self).applications@.len()
                    &&& (#[trigger] old(self).applications@[ai]).id == application_id
                    &&& old(self).applications@[ai].status == ApplicationStatus::Pending
                    &&& 0 <= ri < old(self).rooms@.len()
                    &&& (#[trigger] old(self).rooms@[ri]).id == old(self).applications@[ai].room_id
                    &&& old(self).rooms@[ri].can_reserve()
                },
    {
        let found = self.applications.find_by_id(application_id);
        match found {
            None => Err(WorkflowError::NotFound),
            Some(app) => {
                let ghost fi = choose|fi: int|
                    0 <= fi < self.applications@.len() && (#[trigger] self.applications@[fi]).id
                        == application_id && app == self.applications@[fi];
                if app.status.is_terminal() {
                    proof {
                        assert forall|ai: int|
                            0 <= ai < self.applications@.len() && (
                            #[trigger] self.applications@[ai]).id == application_id implies self
                            .applications@[ai].status.spec_is_terminal() by {
                            if ai != fi {
                                assert(self.applications@[ai].id != self.applications@[fi].id);
                            }
                        }
                    }
                    return Err(WorkflowError::InvalidTransition);
                }
                match CapacityLedger::reserve_slot(&mut self.rooms, app.room_id) {
                    Err(_) => {
                        proof {
                            assert forall|ai: int|
                                0 <= ai < self.applications@.len() && (
                                #[trigger] self.applications@[ai]).id == application_id implies self
                                .applications@[ai].room_id == app.room_id by {
                                if ai != fi {
                                    assert(self.applications@[ai].id
                                        != self.applications@[fi].id);
                                }
                            }
                        }
                        Err(WorkflowError::CapacityExceeded)
                    },
                    Ok(_room) => {
                        let ghost mid_rooms = self.rooms@;
                        match self.applications.update_status(
                            application_id,
                            ApplicationStatus::Approved,
                            comment,
                        ) {
                            Err(_) => vstd::pervasive::unreached(),
                            Ok(updated) => {
                                proof {
                                    let ai = choose|ai: int|
                                        {
                                            &&& 0 <= ai < old(self).applications@.len()
                                            &&& (#[trigger] old(self).applications@[ai]).id
                                                == application_id
                                            &&& old(self).applications@[ai].status
                                                == ApplicationStatus::Pending
                                            &&& final(self).applications@ == old(
                                                self,
                                            ).applications@.update(
                                                ai,
                                                old(self).applications@[ai].finalized(
                                                    ApplicationStatus::Approved,
                                                    comment,
                                                ),
                                            )
                                        };
                                    let ri = choose|ri: int|
                                        {
                                            &&& 0 <= ri < old(self).rooms@.len()
                                            &&& (#[trigger] old(self).rooms@[ri]).id == app.room_id
                                            &&& old(self).rooms@[ri].can_reserve()
                                            &&& mid_rooms == old(self).rooms@.update(
                                                ri,
                                                old(self).rooms@[ri].after_reserve(),
                                            )
                                        };
                                    let apps0 = old(self).applications@;
                                    let apps1 = final(self).applications@;
                                    let v = final(self).rooms@;
                                    let fin = apps0[ai].finalized(
                                        ApplicationStatus::Approved,
                                        comment,
                                    );
                                    assert(apps0[ai].room_id == app.room_id);
                                    assert forall|i: int| 0 <= i < v.len() implies (
                                    #[trigger] v[i]).current_occupants == count_where(
                                        apps1,
                                        is_approved_for(v[i].id),
                                    ) by {
                                        lemma_count_where_update(
                                            apps0,
                                            is_approved_for(v[i].id),
                                            ai,
                                            fin,
                                        );
                                        if i != ri {
                                            assert(v[i] == old(self).rooms@[i]);
                                            assert(old(self).rooms@[ri].id != old(
                                                self,
                                            ).rooms@[i].id);
                                        } else {
                                            assert(v[ri] == old(self).rooms@[ri].after_reserve());
                                        }
                                    }
                                    assert forall|k: int| 0 <= k < apps1.len() implies has_room_id(
                                        v,
                                        (#[trigger] apps1[k]).room_id,
                                    ) by {
                                        assert(apps1[k].room_id == apps0[k].room_id);
                                        assert(has_room_id(old(self).rooms@, apps0[k].room_id));
                                        let m = choose|m: int|
                                            0 <= m < old(self).rooms@.len() && (
                                            #[trigger] old(self).rooms@[m]).id
                                                == apps0[k].room_id;
                                        assert(v[m].id == old(self).rooms@[m].id);
                                    }
                                }
                                Ok(updated)
                            },
                        }
                    },
                }
            },
        }
    }

    /// Rejects a pending application: the same existence and state checks
    /// as approval, no capacity interaction. A finalized application is
    /// never overwritten.
    pub fn reject_application(&mut self, application_id: u128, comment: Option<String>) -> (r:
        Result<Application, WorkflowError>)
        requires
            old(self).wf(),
        ensures
            final(self).wf(),
            final(self).rooms@ == old(self).rooms@,
            final(self).users@ == old(self).users@,
            final(self).profiles@ == old(self).profiles@,
            match r {
                Ok(app) => exists|ai: int|
                    {
                        &&& 0 <= ai < old(self).applications@.len()
                        &&& (#[trigger] old(self).applications@[ai]).id == application_id
                        &&& old(self).applications@[ai].status == ApplicationStatus::Pending
                        &&& app == old(self).applications@[ai].finalized(
                            ApplicationStatus::Rejected,
                            comment,
                        )
                        &&& final(self).applications@ == old(self).applications@.update(ai, app)
                    },
                Err(WorkflowError::NotFound) => {
                    &&& !has_app_id(old(self).applications@, application_id)
                    &&& final(self).applications@ == old(self).applications@
                },
                Err(WorkflowError::InvalidTransition) => {
                    &&& exists|ai: int|
                        0 <= ai < old(self).applications@.len() && (
                        #[trigger] old(self).applications@[ai]).id == application_id && old(
                            self,
                        ).applications@[ai].status.spec_is_terminal()
                    &&& final(self).applications@ == old(self).applications@
                },
                Err(WorkflowError::CapacityExceeded) => false,
            },
            r is Ok <==> exists|ai: int|
                0 <= ai < old(self).applications@.len() && (
                #[trigger] old(self).applications@[ai]).id == application_id && old(
                    self,
                ).applications@[ai].status == ApplicationStatus::Pending,
            // a finalized application never changes again
            forall|k: int|
                0 <= k < old(self).applications@.len() && (
                #[trigger] old(self).applications@[k]).status.spec_is_terminal()
                    ==> final(self).applications@[k] == old(self).applications@[k],
    {
        let r = self.applications.update_status(
            application_id,
            ApplicationStatus::Rejected,
            comment,
        );
        proof {
            if r is Ok {
                let apps0 = old(self).applications@;
                let apps1 = final(self).applications@;
                let v = final(self).rooms@;
                let ai = choose|ai: int|
                    {
                        &&& 0 <= ai < apps0.len()
                        &&& (#[trigger] apps0[ai]).id == application_id
                        &&& apps0[ai].status == ApplicationStatus::Pending
                        &&& apps1 == apps0.update(
                            ai,
                            apps0[ai].finalized(ApplicationStatus::Rejected, comment),
                        )
                    };
                let fin = apps0[ai].finalized(ApplicationStatus::Rejected, comment);
                assert forall|i: int| 0 <= i < v.len() implies (#[trigger] v[i]).current_occupants
                    == count_where(apps1, is_approved_for(v[i].id)) by {
                    lemma_count_where_update(apps0, is_approved_for(v[i].id), ai, fin);
                }
                assert forall|k: int| 0 <= k < apps1.len() implies has_room_id(
                    v,
                    (#[trigger] apps1[k]).room_id,
                ) by {
                    assert(apps1[k].room_id == apps0[k].room_id);
                    assert(has_room_id(old(self).rooms@, apps0[k].room_id));
                }
            }
        }
        r
    }

    /// Counts of rooms by status and of pending applications, from one
    /// point-in-time read of the store.
    pub fn get_stats(&self) -> (r: RoomStats)
        requires
            self.rooms@.len() <= i64::MAX,
            self.applications@.len() <= i64::MAX,
        ensures
            r.available_rooms == rooms_with_status(self.rooms@, RoomStatus::Available),
            r.occupied_rooms == rooms_with_status(self.rooms@, RoomStatus::Occupied),
            r.reserved_rooms == rooms_with_status(self.rooms@, RoomStatus::Reserved),
            r.pending_applications == pending_applications(self.applications@),
    {
        let ghost p_avail = |rm: Room| rm.status == RoomStatus::Available;
        let ghost p_occ = |rm: Room| rm.status == RoomStatus::Occupied;
        let ghost p_res = |rm: Room| rm.status == RoomStatus::Reserved;
        let ghost p_pend = |a: Application| a.status == ApplicationStatus::Pending;
        let mut available: i64 = 0;
        let mut occupied: i64 = 0;
        let mut reserved: i64 = 0;
        let n = self.rooms.rooms.len();
        let mut i: usize = 0;
        proof {
            assert(count_where(self.rooms@.take(0), p_avail) == 0);
            assert(count_where(self.rooms@.take(0), p_occ) == 0);
            assert(count_where(self.rooms@.take(0), p_res) == 0);
        }
        while i < n
            invariant
                n == self.rooms@.len() <= i64::MAX,
                i <= n,
                available == count_where(self.rooms@.take(i as int), p_avail),
                occupied == count_where(self.rooms@.take(i as int), p_occ),
                reserved == count_where(self.rooms@.take(i as int), p_res),
                available + occupied + reserved <= i,
                0 <= available && 0 <= occupied && 0 <= reserved,
                p_avail == (|rm: Room| rm.status == RoomStatus::Available),
                p_occ == (|rm: Room| rm.status == RoomStatus::Occupied),
                p_res == (|rm: Room| rm.status == RoomStatus::Reserved),
            decreases n - i,
        {
            proof {
                lemma_count_where_take_step(self.rooms@, p_avail, i as int);
                lemma_count_where_take_step(self.rooms@, p_occ, i as int);
                lemma_count_where_take_step(self.rooms@, p_res, i as int);
            }
            match self.rooms.rooms[i].status {
                RoomStatus::Available => {
                    available = available + 1;
                },
                RoomStatus::Occupied => {
                    occupied = occupied + 1;
                },
                RoomStatus::Reserved => {
                    reserved = reserved + 1;
                },
            }
            i += 1;
        }
        let mut pending: i64 = 0;
        let m = self.applications.applications.len();
        let mut k: usize = 0;
        proof {
            assert(count_where(self.applications@.take(0), p_pend) == 0);
        }
        while k < m
            invariant
                m == self.applications@.len() <= i64::MAX,
                k <= m,
                pending == count_where(self.applications@.take(k as int), p_pend),
                0 <= pending <= k,
                p_pend == (|a: Application| a.status == ApplicationStatus::Pending),
            decreases m - k,
        {
            proof {
                lemma_count_where_take_step(self.applications@, p_pend, k as int);
            }
            if matches!(self.applications.applications[k].status, ApplicationStatus::Pending) {
                pending = pending + 1;
            }
            k += 1;
        }
        proof {
            assert(self.rooms@.take(n as int) =~= self.rooms@);
            assert(self.applications@.take(m as int) =~= self.applications@);
        }
        RoomStats { available_rooms: available, occupied_rooms: occupied, reserved_rooms: reserved, pending_applications: pending }
    }

    /// Self-approving allocation: resolves the applicant's profile,
    /// searches the compatible rooms, and commits the first fit — the
    /// slot reservation and the creation of the already-approved
    /// application form one transition. Were the chosen room filled by a
    /// concurrent request between selection and reservation, the loop
    /// moves on past it and tries the next fit; under this store's
    /// exclusive access that race cannot arise, so the first fit wins.
    /// Fails with `NoEligibleRoom` exactly when no room is compatible.
    pub fn auto_assign(&mut self, user_id: u128, new_id: u128, now: i64) -> (r: Result<
        Application,
        AllocationError,
    >)
        requires
            old(self).wf(),
        ensures
            final(self).wf(),
            final(self).users@ == old(self).users@,
            final(self).profiles@ == old(self).profiles@,
            r == Err::<Application, AllocationError>(AllocationError::UserNotFound) <==> !has_user_id(
                old(self).users@,
                user_id,
            ),
            r == Err::<Application, AllocationError>(AllocationError::ProfileNotFound) <==> (
            has_user_id(old(self).users@, user_id) && !has_profile_for(
                old(self).profiles@,
                user_id,
            )),
            r == Err::<Application, AllocationError>(AllocationError::DuplicateApplication) <==> (
            has_user_id(old(self).users@, user_id) && has_profile_for(old(self).profiles@, user_id)
                && has_app_id(old(self).applications@, new_id)),
            r is Err ==> (final(self).rooms@ == old(self).rooms@ && final(self).applications@
                == old(self).applications@),
            match r {
                Ok(app) => exists|pi: int, ri: int|
                    {
                        &&& 0 <= pi < old(self).profiles@.len()
                        &&& (#[trigger] old(self).profiles@[pi]).user_id == user_id
                        &&& 0 <= ri < old(self).rooms@.len()
                        &&& spec_is_compatible(
                            #[trigger] old(self).rooms@[ri],
                            old(self).profiles@[pi],
                        )
                        &&& forall|j: int|
                            0 <= j < ri ==> !spec_is_compatible(
                                old(self).rooms@[j],
                                old(self).profiles@[pi],
                            )
                        &&& app.id == new_id
                        &&& app.user_id == user_id
                        &&& app.room_id == old(self).rooms@[ri].id
                        &&& app.status == ApplicationStatus::Approved
                        &&& app.comment matches Some(c) && c@ == "auto-assigned"@
                        &&& app.created_at == now
                        &&& final(self).rooms@ == old(self).rooms@.update(
                            ri,
                            old(self).rooms@[ri].after_reserve(),
                        )
                        &&& final(self).applications@ == old(self).applications@.push(app)
                    },
                Err(AllocationError::NoEligibleRoom) => {
                    &&& exists|pi: int|
                        {
                            &&& 0 <= pi < old(self).profiles@.len()
                            &&& (#[trigger] old(self).profiles@[pi]).user_id == user_id
                            &&& forall|j: int|
                                0 <= j < old(self).rooms@.len() ==> !spec_is_compatible(
                                    #[trigger] old(self).rooms@[j],
                                    old(self).profiles@[pi],
                                )
                        }
                    &&& !has_app_id(old(self).applications@, new_id)
                },
                Err(AllocationError::RoomNotFound) => false,
                Err(_) => true,
            },
            r is Ok <==> exists|pi: int|
                {
                    &&& has_user_id(old(self).users@, user_id)
                    &&& 0 <= pi < old(self).profiles@.len()
                    &&& (#[trigger] old(self).profiles@[pi]).user_id == user_id
                    &&& !has_app_id(old(self).applications@, new_id)
                    &&& exists|j: int|
                        0 <= j < old(self).rooms@.len() && spec_is_compatible(
                            #[trigger] old(self).rooms@[j],
                            old(self).profiles@[pi],
                        )
                },
            // a filed application is never altered by an auto-assignment
            forall|k: int|
                0 <= k < old(self).applications@.len() ==> final(self).applications@[k] == old(
                    self,
                ).applications@[k],
    {
        if self.users.find_by_id(user_id).is_none() {
            return Err(AllocationError::UserNotFound);
        }
        let profile = match self.profiles.get_by_user_id(user_id) {
            None => {
                return Err(AllocationError::ProfileNotFound);
            },
            Some(p) => p,
        };
        if self.applications.find_by_id(new_id).is_some() {
            return Err(AllocationError::DuplicateApplication);
        }
        let ghost pi = choose|pi: int|
            0 <= pi < self.profiles@.len() && (#[trigger] self.profiles@[pi]).user_id == user_id
                && profile.eqv(self.profiles@[pi]);
        let ghost stored = self.profiles@[pi];
        let ghost compat = |rm: Room| spec_is_compatible(rm, stored);
        let candidates = self.rooms.find_available(
            Some(&profile.faculty),
            Some(profile.course),
            &profile.gender,
        );
        proof {
            lemma_search_is_compatibility(self.rooms@, profile);
            assert forall|i: int| 0 <= i < self.rooms@.len() implies matches_search(
                #[trigger] self.rooms@[i],
                Some(&profile.faculty),
                Some(profile.course),
                &profile.gender,
            ) == compat(self.rooms@[i]) by {
                assert(spec_is_compatible(self.rooms@[i], profile) == spec_is_compatible(
                    self.rooms@[i],
                    stored,
                ));
            }
            lemma_filter_congruent(
                self.rooms@,
                |rm: Room| matches_search(
                    rm,
                    Some(&profile.faculty),
                    Some(profile.course),
                    &profile.gender,
                ),
                compat,
            );
        }
        let n = candidates.len();
        let mut k: usize = 0;
        while k < n
            invariant
                old(self).wf(),
                self.rooms@ == old(self).rooms@,
                self.applications@ == old(self).applications@,
                self.users@ == old(self).users@,
                self.profiles@ == old(self).profiles@,
                0 <= pi < old(self).profiles@.len(),
                old(self).profiles@[pi].user_id == user_id,
                stored == old(self).profiles@[pi],
                profile.eqv(stored),
                compat == (|rm: Room| spec_is_compatible(rm, stored)),
                candidates@ == old(self).rooms@.filter(compat),
                !has_app_id(old(self).applications@, new_id),
                has_user_id(old(self).users@, user_id),
                has_profile_for(old(self).profiles@, user_id),
                n == candidates@.len(),
                k <= n,
                forall|j: int| 0 <= j < k ==> !compat(#[trigger] candidates@[j]),
            decreases n - k,
        {
            if MatchingService::is_compatible(&candidates[k], &profile) {
                proof {
                    assert(spec_is_compatible(candidates@[k as int], profile) == compat(
                        candidates@[k as int],
                    ));
                }
                match CapacityLedger::reserve_slot(&mut self.rooms, candidates[k].id) {
                    Err(_) => {
                        // under exclusive access the compatible candidate is
                        // still reservable, so this arm cannot be reached
                        proof {
                            let cs = old(self).rooms@.filter(compat);
                            assert(cs.contains(cs[k as int]));
                            old(self).rooms@.lemma_filter_contains_rev(
                                compat,
                                cs[k as int],
                            );
                            let m = choose|m: int|
                                0 <= m < old(self).rooms@.len() && old(self).rooms@[m]
                                    == candidates@[k as int];
                            assert(old(self).rooms@[m].id == candidates@[k as int].id);
                            assert(old(self).rooms@[m].can_reserve());
                            assert(false);
                        }
                        k += 1;
                    },
                    Ok(_room) => {
                        let ghost mid_rooms = self.rooms@;
                        let app = Application {
                            id: new_id,
                            user_id,
                            room_id: candidates[k].id,
                            status: ApplicationStatus::Approved,
                            comment: Some("auto-assigned".to_owned()),
                            created_at: now,
                        };
                        let ghost app_spec = app;
                        match self.applications.create(app) {
                            Err(_) => {
                                return vstd::pervasive::unreached();
                            },
                            Ok(created) => {
                                proof {
                                    let cs = old(self).rooms@.filter(compat);
                                    let ri = choose|ri: int|
                                        {
                                            &&& 0 <= ri < old(self).rooms@.len()
                                            &&& (#[trigger] old(self).rooms@[ri]).id
                                                == candidates@[k as int].id
                                            &&& old(self).rooms@[ri].can_reserve()
                                            &&& mid_rooms == old(self).rooms@.update(
                                                ri,
                                                old(self).rooms@[ri].after_reserve(),
                                            )
                                        };
                                    // the committed room is the first fit
                                    assert(cs.contains(cs[k as int]));
                                    old(self).rooms@.lemma_filter_contains_rev(
                                        compat,
                                        cs[k as int],
                                    );
                                    let m = choose|m: int|
                                        0 <= m < old(self).rooms@.len() && old(self).rooms@[m]
                                            == candidates@[k as int];
                                    assert(k == 0) by {
                                        if k > 0 {
                                            assert(compat(cs[0]));
                                            assert(!compat(candidates@[0]));
                                        }
                                    }
                                    lemma_filter_first(old(self).rooms@, compat);
                                    let first = choose|i: int|
                                        {
                                            &&& 0 <= i < old(self).rooms@.len()
                                            &&& compat(#[trigger] old(self).rooms@[i])
                                            &&& old(self).rooms@[i] == cs[0]
                                            &&& forall|j: int|
                                                0 <= j < i ==> !compat(old(self).rooms@[j])
                                        };
                                    assert(old(self).rooms@[first] == candidates@[k as int]);
                                    assert(old(self).rooms@[first].id
                                        == candidates@[k as int].id);
                                    assert(old(self).rooms@[ri].id == old(
                                        self,
                                    ).rooms@[first].id);
                                    assert(ri == first) by {
                                        if ri != first {
                                            assert(old(self).rooms@[ri].id != old(
                                                self,
                                            ).rooms@[first].id);
                                        }
                                    }
                                    // the store invariant after the combined update
                                    let apps1 = final(self).applications@;
                                    let v = final(self).rooms@;
                                    assert(apps1 == old(self).applications@.push(app_spec));
                                    assert forall|i: int| 0 <= i < v.len() implies (
                                    #[trigger] v[i]).current_occupants == count_where(
                                        apps1,
                                        is_approved_for(v[i].id),
                                    ) by {
                                        lemma_count_where_push(
                                            old(self).applications@,
                                            is_approved_for(v[i].id),
                                            app_spec,
                                        );
                                        if i != ri {
                                            assert(v[i] == old(self).rooms@[i]);
                                            assert(old(self).rooms@[ri].id != old(
                                                self,
                                            ).rooms@[i].id);
                                        } else {
                                            assert(v[ri] == old(self).rooms@[ri].after_reserve());
                                        }
                                    }
                                    assert forall|q: int| 0 <= q < apps1.len() implies has_room_id(
                                        v,
                                        (#[trigger] apps1[q]).room_id,
                                    ) by {
                                        if q < apps1.len() - 1 {
                                            assert(apps1[q] == old(self).applications@[q]);
                                            assert(has_room_id(
                                                old(self).rooms@,
                                                apps1[q].room_id,
                                            ));
                                            let w = choose|w: int|
                                                0 <= w < old(self).rooms@.len() && (
                                                #[trigger] old(self).rooms@[w]).id
                                                    == apps1[q].room_id;
                                            assert(v[w].id == old(self).rooms@[w].id);
                                        } else {
                                            assert(apps1[q] == app_spec);
                                            assert(v[ri].id == old(self).rooms@[ri].id);
                                        }
                                    }
                                }
                                return Ok(created);
                            },
                        }
                    },
                }
            } else {
                proof {
                    assert(spec_is_compatible(candidates@[k as int], profile) == compat(
                        candidates@[k as int],
                    ));
                }
                k += 1;
            }
        }
        proof {
            // every candidate passes the pre-filter, hence is compatible;
            // the loop found none, so there are no candidates at all, and
            // no room in the store is compatible
            let cs = old(self).rooms@.filter(compat);
            if cs.len() > 0 {
                assert(compat(cs[0]));
                assert(!compat(candidates@[0]));
            }
            lemma_filter_empty_means_none(old(self).rooms@, compat);
            assert forall|pi2: int|
                0 <= pi2 < old(self).profiles@.len() && (
                #[trigger] old(self).profiles@[pi2]).user_id == user_id implies pi2 == pi by {
                if pi2 != pi {
                    assert(old(self).profiles@[pi2].user_id != old(self).profiles@[pi].user_id);
                }
            }
        }
        Err(AllocationError::NoEligibleRoom)
    }

    /// Registers an applicant: one new account (student role, pending
    /// verification) and one new profile, from fields already validated
    /// and a password already hashed by the caller. Fails when the
    /// identity, the address or the profile slot is already taken.
    pub fn register_student(
        &mut self,
        id: u128,
        email: String,
        password_hash: String,
        faculty: String,
        course: i32,
        gender: Sex,
        age: i32,
        wake_hours: WakeType,
        hobbies: Vec<String>,
        mbti: Option<MbtiType>,
        now: i64,
    ) -> (r: Result<User, AlreadyExistsError>)
        requires
            old(self).wf(),
        ensures
            final(self).wf(),
            final(self).rooms@ == old(self).rooms@,
            final(self).applications@ == old(self).applications@,
            r is Err <==> (has_user_id(old(self).users@, id) || has_user_email(
                old(self).users@,
                email@,
            ) || has_profile_for(old(self).profiles@, id)),
            match r {
                Ok(u) => {
                    &&& u.id == id
                    &&& u.email == email
                    &&& u.password_hash == password_hash
                    &&& u.role@ == "student"@
                    &&& u.status == UserStatus::Pending
                    &&& u.created_at == now
                    &&& u.updated_at == now
                    &&& final(self).users@ == old(self).users@.push(u)
                    &&& final(self).profiles@.len() == old(self).profiles@.len() + 1
                    &&& final(self).profiles@ == old(self).profiles@.push(
                        final(self).profiles@.last(),
                    )
                    &&& {
                        let p = final(self).profiles@.last();
                        &&& p.user_id == id
                        &&& p.faculty == faculty
                        &&& p.course == course
                        &&& (gender == Sex::Male ==> p.gender@ == "male"@)
                        &&& (gender == Sex::Female ==> p.gender@ == "female"@)
                        &&& p.age == age
                        &&& p.wake_hours == wake_hours
                        &&& p.hobbies == hobbies
                        &&& p.mbti == mbti
                        &&& p.updated_at == now
                    }
                },
                Err(_) => {
                    &&& final(self).users@ == old(self).users@
                    &&& final(self).profiles@ == old(self).profiles@
                },
            },
    {
        if self.profiles.get_by_user_id(id).is_some() {
            return Err(AlreadyExistsError::AlreadyExists);
        }
        match self.users.create(
            id,
            email,
            password_hash,
            UserRole::Student,
            UserStatus::Pending,
            now,
        ) {
            Err(e) => Err(e),
            Ok(user) => {
                match self.profiles.create(
                    id,
                    faculty,
                    course,
                    gender,
                    age,
                    wake_hours,
                    hobbies,
                    mbti,
                    now,
                ) {
                    Err(_) => vstd::pervasive::unreached(),
                    Ok(_profile) => Ok(user),
                }
            },
        }
    }

    /// Resolves an applicant's verification: `Verified` when accepted,
    /// `Rejected` otherwise. Fails with `NotFound` for an absent account.
    pub fn verify_student(&mut self, user_id: u128, is_verified: bool, now: i64) -> (r: Result<
        User,
        NotFoundError,
    >)
        requires
            old(self).wf(),
        ensures
            final(self).wf(),
            final(self).rooms@ == old(self).rooms@,
            final(self).applications@ == old(self).applications@,
            final(self).profiles@ == old(self).profiles@,
            r is Ok <==> has_user_id(old(self).users@, user_id),
            match r {
                Ok(u) => exists|i: int|
                    {
                        &&& 0 <= i < old(self).users@.len()
                        &&& (#[trigger] old(self).users@[i]).id == user_id
                        &&& u == (User {
                            status: if is_verified {
                                UserStatus::Verified
                            } else {
                                UserStatus::Rejected
                            },
                            updated_at: now,
                            ..old(self).users@[i]
                        })
                        &&& final(self).users@ == old(self).users@.update(i, u)
                    },
                Err(e) => {
                    &&& e == NotFoundError::NotFound
                    &&& final(self).users@ == old(self).users@
                },
            },
    {
        let status = if is_verified {
            UserStatus::Verified
        } else {
            UserStatus::Rejected
        };
        self.users.update_status(user_id, status, now)
    }
}

/// Invariant: for every room, occupancy stays within `0 ..= capacity` —
/// in every store the operations can reach.
pub proof fn lemma_occupancy_bounds(e: AllocationEngine)
    requires
        e.wf(),
    ensures
        forall|i: int|
            0 <= i < e.rooms@.len() ==> 0 <= (#[trigger] e.rooms@[i]).current_occupants
                <= e.rooms@[i].capacity,
{
}

/// Invariant: every room's occupancy equals the number of approved
/// applications referencing it — no double counting, no orphaned
/// increments.
pub proof fn lemma_occupancy_reflects_approvals(e: AllocationEngine)
    requires
        e.wf(),
    ensures
        forall|i: int|
            0 <= i < e.rooms@.len() ==> (#[trigger] e.rooms@[i]).current_occupants == count_where(
                e.applications@,
                is_approved_for(e.rooms@[i].id),
            ),
{
}

/// Invariant: a room is `Occupied` exactly when it is full.
pub proof fn lemma_status_mirrors_fullness(e: AllocationEngine)
    requires
        e.wf(),
    ensures
        forall|i: int|
            0 <= i < e.rooms@.len() ==> ((#[trigger] e.rooms@[i]).status == RoomStatus::Occupied
                <==> e.rooms@[i].current_occupants == e.rooms@[i].capacity),
{
}

} // verus!
