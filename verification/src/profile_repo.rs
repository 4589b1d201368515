//! The store of applicant profiles, keyed uniquely by applicant identity.
//! An update overwrites only the fields it is given and keeps the rest —
//! the partial-update behaviour of the profile endpoint.

use vstd::prelude::*;
use crate::errors::{AlreadyExistsError, NotFoundError};
use crate::profile::{Sex, StudentProfile};
use crate::types::{MbtiType, WakeType};

verus! {

/// Whether some profile in `profiles` belongs to the applicant `user_id`.
pub open spec fn has_profile_for(profiles: Seq<StudentProfile>, user_id: u128) -> bool {
    exists|i: int| 0 <= i < profiles.len() && profiles[i].user_id == user_id
}

/// The collection of profiles, one per applicant.
pub struct StudentProfileRepository {
    pub profiles: Vec<StudentProfile>,
}

impl View for StudentProfileRepository {
    type V = Seq<StudentProfile>;

    open spec fn view(&self) -> Seq<StudentProfile> {
        self.profiles@
    }
}

impl StudentProfileRepository {
    /// No applicant owns two profiles.
    pub open spec fn wf(self) -> bool {
        forall|i: int, j: int|
            0 <= i < j < self@.len() ==> (#[trigger] self@[i]).user_id != (
            #[trigger] self@[j]).user_id
    }

    pub fn new() -> (r: Self)
        ensures
            r@ == Seq::<StudentProfile>::empty(),
            r.wf(),
    {
        StudentProfileRepository { profiles: Vec::new() }
    }

    /// Admits a profile built from the given fields, stamped with `now`;
    /// the applicant must not have one yet.
    pub fn create(
        &mut self,
        user_id: u128,
        faculty: String,
        course: i32,
        gender: Sex,
        age: i32,
        wake_hours: WakeType,
        hobbies: Vec<String>,
        mbti: Option<MbtiType>,
        now: i64,
    ) -> (r: Result<StudentProfile, AlreadyExistsError>)
        requires
            old(self).wf(),
        ensures
            final(self).wf(),
            r is Err <==> has_profile_for(old(self)@, user_id),
            match r {
                Ok(p) => {
                    &&& final(self)@.len() == old(self)@.len() + 1
                    &&& final(self)@ == old(self)@.push(final(self)@.last())
                    &&& p.eqv(final(self)@.last())
                    &&& final(self)@.last().user_id == user_id
                    &&& final(self)@.last().faculty == faculty
                    &&& final(self)@.last().course == course
                    &&& (gender == Sex::Male ==> final(self)@.last().gender@ == "male"@)
                    &&& (gender == Sex::Female ==> final(self)@.last().gender@ == "female"@)
                    &&& final(self)@.last().age == age
                    &&& final(self)@.last().wake_hours == wake_hours
                    &&& final(self)@.last().hobbies == hobbies
                    &&& final(self)@.last().mbti == mbti
                    &&& final(self)@.last().updated_at == now
                },
                Err(_) => final(self)@ == old(self)@,
            },
    {
        let n = self.profiles.len();
        let mut i: usize = 0;
        while i < n
            invariant
                old(self).wf(),
                *self == *old(self),
                n == self@.len(),
                i <= n,
                forall|j: int| 0 <= j < i ==> (#[trigger] self@[j]).user_id != user_id,
            decreases n - i,
        {
            if self.profiles[i].user_id == user_id {
                return Err(AlreadyExistsError::AlreadyExists);
            }
            i += 1;
        }
        let profile = StudentProfile {
            user_id,
            faculty,
            course,
            gender: gender.to_gender_string(),
            age,
            wake_hours,
            hobbies,
            mbti,
            updated_at: now,
        };
        let out = profile.clone();
        self.profiles.push(profile);
        Ok(out)
    }

    /// The profile of the applicant `user_id`, if any.
    pub fn get_by_user_id(&self, user_id: u128) -> (r: Option<StudentProfile>)
        ensures
            match r {
                Some(p) => exists|i: int|
                    0 <= i < self@.len() && (#[trigger] self@[i]).user_id == user_id && p.eqv(
                        self@[i],
                    ),
                None => !has_profile_for(self@, user_id),
            },
            r is Some <==> has_profile_for(self@, user_id),
    {
        let n = self.profiles.len();
        let mut i: usize = 0;
        while i < n
            invariant
                n == self@.len(),
                i <= n,
                forall|j: int| 0 <= j < i ==> (#[trigger] self@[j]).user_id != user_id,
            decreases n - i,
        {
            if self.profiles[i].user_id == user_id {
                return Some(self.profiles[i].clone());
            }
            i += 1;
        }
        None
    }

    /// Overwrites the fields given as `Some` on the profile of `user_id`,
    /// keeps every field given as `None`, and stamps `now`.
    pub fn update(
        &mut self,
        user_id: u128,
        faculty: Option<String>,
        course: Option<i32>,
        gender: Option<Sex>,
        age: Option<i32>,
        wake_hours: Option<WakeType>,
        hobbies: Option<Vec<String>>,
        mbti: Option<MbtiType>,
        now: i64,
    ) -> (r: Result<StudentProfile, NotFoundError>)
        requires
            old(self).wf(),
        ensures
            final(self).wf(),
            r is Ok <==> has_profile_for(old(self)@, user_id),
            match r {
                Ok(p) => exists|i: int|
                    {
                        &&& 0 <= i < old(self)@.len()
                        &&& (#[trigger] old(self)@[i]).user_id == user_id
                        &&& final(self)@.len() == old(self)@.len()
                        &&& final(self)@ == old(self)@.update(i, final(self)@[i])
                        &&& p.eqv(final(self)@[i])
                        &&& {
                            let q = final(self)@[i];
                            let prev = old(self)@[i];
                            &&& q.user_id == user_id
                            &&& q.faculty == (match faculty {
                                Some(f) => f,
                                None => prev.faculty,
                            })
                            &&& q.course == (match course {
                                Some(c) => c,
                                None => prev.course,
                            })
                            &&& (match gender {
                                Some(Sex::Male) => q.gender@ == "male"@,
                                Some(Sex::Female) => q.gender@ == "female"@,
                                None => q.gender == prev.gender,
                            })
                            &&& q.age == (match age {
                                Some(a) => a,
                                None => prev.age,
                            })
                            &&& q.wake_hours == (match wake_hours {
                                Some(w) => w,
                                None => prev.wake_hours,
                            })
                            &&& q.hobbies@ == (match hobbies {
                                Some(h) => h@,
                                None => prev.hobbies@,
                            })
                            &&& q.mbti == (match mbti {
                                Some(m) => Some(m),
                                None => prev.mbti,
                            })
                            &&& q.updated_at == now
                        }
                    },
                Err(e) => {
                    &&& e == NotFoundError::NotFound
                    &&& final(self)@ == old(self)@
                },
            },
    {
        let n = self.profiles.len();
        let mut i: usize = 0;
        while i < n
            invariant
                old(self).wf(),
                *self == *old(self),
                n == self@.len(),
                i <= n,
                forall|j: int| 0 <= j < i ==> (#[trigger] self@[j]).user_id != user_id,
            decreases n - i,
        {
            if self.profiles[i].user_id == user_id {
                let mut updated = self.profiles[i].clone();
                if let Some(f) = faculty {
                    updated.faculty = f;
                }
                if let Some(c) = course {
                    updated.course = c;
                }
                if let Some(g) = gender {
                    updated.gender = g.to_gender_string();
                }
                if let Some(a) = age {
                    updated.age = a;
                }
                if let Some(w) = wake_hours {
                    updated.wake_hours = w;
                }
                if let Some(h) = hobbies {
                    updated.hobbies = h;
                }
                if let Some(m) = mbti {
                    updated.mbti = Some(m);
                }
                updated.updated_at = now;
                let out = updated.clone();
                self.profiles[i] = updated;
                proof {
                    let v = final(self)@;
                    assert(v == old(self)@.update(i as int, v[i as int]));
                    assert forall|p: int, q: int| 0 <= p < q < v.len() implies (
                    #[trigger] v[p]).user_id != (#[trigger] v[q]).user_id by {
                        assert(v[p].user_id == old(self)@[p].user_id);
                        assert(v[q].user_id == old(self)@[q].user_id);
                    }
                }
                return Ok(out);
            }
            i += 1;
        }
        Err(NotFoundError::NotFound)
    }
}

} // verus!
