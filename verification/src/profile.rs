//! The applicant profile: the read-only input to the eligibility filter.

use vstd::prelude::*;
use crate::types::{MbtiType, WakeType};

verus! {

/// Sex of an applicant as recorded at registration.
#[derive(Clone, Copy, Debug, PartialEq, Eq, Structural)]
pub enum Sex {
    Male,
    Female,
}

impl Sex {
    /// The lowercase string stored in a profile's `gender` field for this
    /// value.
    pub fn to_gender_string(&self) -> (r: String)
        ensures
            *self == Sex::Male ==> r@ == "male"@,
            *self == Sex::Female ==> r@ == "female"@,
    {
        match self {
            Sex::Male => "male".to_owned(),
            Sex::Female => "female".to_owned(),
        }
    }
}

/// An applicant's profile. `faculty`, `course` and `gender` feed the
/// eligibility filter; the remaining attributes are descriptive only.
pub struct StudentProfile {
    pub user_id: u128,
    pub faculty: String,
    pub course: i32,
    pub gender: String,
    pub age: i32,
    pub wake_hours: WakeType,
    pub hobbies: Vec<String>,
    pub mbti: Option<MbtiType>,
    pub updated_at: i64,
}

impl StudentProfile {
    /// Field-wise agreement; the hobby list is compared element by element.
    /// Everything the engine's contracts read from a profile is preserved
    /// by this relation.
    pub open spec fn eqv(self, other: Self) -> bool {
        &&& self.user_id == other.user_id
        &&& self.faculty == other.faculty
        &&& self.course == other.course
        &&& self.gender == other.gender
        &&& self.age == other.age
        &&& self.wake_hours == other.wake_hours
        &&& self.hobbies@ == other.hobbies@
        &&& self.mbti == other.mbti
        &&& self.updated_at == other.updated_at
    }
}

impl Clone for StudentProfile {
    fn clone(&self) -> (r: Self)
        ensures
            r.eqv(*self),
    {
        let mut hobbies: Vec<String> = Vec::new();
        let mut i: usize = 0;
        while i < self.hobbies.len()
            invariant
                i <= self.hobbies.len(),
                hobbies@ =~= self.hobbies@.take(i as int),
            decreases self.hobbies.len() - i,
        {
            hobbies.push(self.hobbies[i].clone());
            i += 1;
        }
        proof {
            assert(self.hobbies@.take(self.hobbies@.len() as int) =~= self.hobbies@);
        }
        StudentProfile {
            user_id: self.user_id,
            faculty: self.faculty.clone(),
            course: self.course,
            gender: self.gender.clone(),
            age: self.age,
            wake_hours: self.wake_hours,
            hobbies,
            mbti: self.mbti,
            updated_at: self.updated_at,
        }
    }
}

} // verus!
