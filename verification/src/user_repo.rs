//! The store of accounts. Identities and email addresses are unique.

use vstd::prelude::*;
use crate::errors::{AlreadyExistsError, NotFoundError};
use crate::user::{User, UserRole, UserStatus};

verus! {

/// Whether some account in `users` carries the identity `id`.
pub open spec fn has_user_id(users: Seq<User>, id: u128) -> bool {
    exists|i: int| 0 <= i < users.len() && users[i].id == id
}

/// Whether some account in `users` carries the address `email`.
pub open spec fn has_user_email(users: Seq<User>, email: Seq<char>) -> bool {
    exists|i: int| 0 <= i < users.len() && users[i].email@ == email
}

/// The collection of accounts.
pub struct UserRepository {
    pub users: Vec<User>,
}

impl View for UserRepository {
    type V = Seq<User>;

    open spec fn view(&self) -> Seq<User> {
        self.users@
    }
}

impl UserRepository {
    /// No identity and no email address repeats.
    pub open spec fn wf(self) -> bool {
        &&& forall|i: int, j: int|
            0 <= i < j < self@.len() ==> (#[trigger] self@[i]).id != (#[trigger] self@[j]).id
        &&& forall|i: int, j: int|
            0 <= i < j < self@.len() ==> (#[trigger] self@[i]).email@ != (
            #[trigger] self@[j]).email@
    }

    pub fn new() -> (r: Self)
        ensures
            r@ == Seq::<User>::empty(),
            r.wf(),
    {
        UserRepository { users: Vec::new() }
    }

    /// Admits a new account built from the given fields, stamped with
    /// `now`; both the identity and the address must be fresh.
    pub fn create(
        &mut self,
        id: u128,
        email: String,
        password_hash: String,
        role: UserRole,
        status: UserStatus,
        now: i64,
    ) -> (r: Result<User, AlreadyExistsError>)
        requires
            old(self).wf(),
        ensures
            final(self).wf(),
            r is Err <==> (has_user_id(old(self)@, id) || has_user_email(old(self)@, email@)),
            match r {
                Ok(u) => {
                    &&& u.id == id
                    &&& u.email == email
                    &&& u.password_hash == password_hash
                    &&& (role == UserRole::Student ==> u.role@ == "student"@)
                    &&& (role == UserRole::Admin ==> u.role@ == "admin"@)
                    &&& u.status == status
                    &&& u.created_at == now
                    &&& u.updated_at == now
                    &&& final(self)@ == old(self)@.push(u)
                },
                Err(_) => final(self)@ == old(self)@,
            },
    {
        let n = self.users.len();
        let mut i: usize = 0;
        while i < n
            invariant
                old(self).wf(),
                *self == *old(self),
                n == self@.len(),
                i <= n,
                forall|j: int|
                    0 <= j < i ==> (#[trigger] self@[j]).id != id && self@[j].email@ != email@,
            decreases n - i,
        {
            if self.users[i].id == id || self.users[i].email == email {
                return Err(AlreadyExistsError::AlreadyExists);
            }
            i += 1;
        }
        let user = User {
            id,
            email,
            password_hash,
            role: role.to_role_string(),
            status,
            created_at: now,
            updated_at: now,
        };
        let stored = user.clone();
        self.users.push(user);
        Ok(stored)
    }

    /// The account carrying identity `id`, if any.
    pub fn find_by_id(&self, id: u128) -> (r: Option<User>)
        ensures
            match r {
                Some(u) => exists|i: int|
                    0 <= i < self@.len() && (#[trigger] self@[i]).id == id && u == self@[i],
                None => !has_user_id(self@, id),
            },
            r is Some <==> has_user_id(self@, id),
    {
        let n = self.users.len();
        let mut i: usize = 0;
        while i < n
            invariant
                n == self@.len(),
                i <= n,
                forall|j: int| 0 <= j < i ==> (#[trigger] self@[j]).id != id,
            decreases n - i,
        {
            if self.users[i].id == id {
                return Some(self.users[i].clone());
            }
            i += 1;
        }
        None
    }

    /// The account carrying the address `email`, if any.
    pub fn find_by_email(&self, email: &String) -> (r: Option<User>)
        ensures
            match r {
                Some(u) => exists|i: int|
                    0 <= i < self@.len() && (#[trigger] self@[i]).email@ == email@ && u == self@[i],
                None => !has_user_email(self@, email@),
            },
            r is Some <==> has_user_email(self@, email@),
    {
        let n = self.users.len();
        let mut i: usize = 0;
        while i < n
            invariant
                n == self@.len(),
                i <= n,
                forall|j: int| 0 <= j < i ==> (#[trigger] self@[j]).email@ != email@,
            decreases n - i,
        {
            if self.users[i].email == *email {
                return Some(self.users[i].clone());
            }
            i += 1;
        }
        None
    }

    /// Moves the account `user_id` to `status`, stamping `now`; everything
    /// else about it is kept.
    pub fn update_status(&mut self, user_id: u128, status: UserStatus, now: i64) -> (r: Result<
        User,
        NotFoundError,
    >)
        requires
            old(self).wf(),
        ensures
            final(self).wf(),
            r is Ok <==> has_user_id(old(self)@, user_id),
            match r {
                Ok(u) => exists|i: int|
                    {
                        &&& 0 <= i < old(self)@.len()
                        &&& (#[trigger] old(self)@[i]).id == user_id
                        &&& u == (User { status, updated_at: now, ..old(self)@[i] })
                        &&& final(self)@ == old(self)@.update(
                            i,
                            User { status, updated_at: now, ..old(self)@[i] },
                        )
                    },
                Err(e) => {
                    &&& e == NotFoundError::NotFound
                    &&& final(self)@ == old(self)@
                },
            },
    {
        let n = self.users.len();
        let mut i: usize = 0;
        while i < n
            invariant
                old(self).wf(),
                *self == *old(self),
                n == self@.len(),
                i <= n,
                forall|j: int| 0 <= j < i ==> (#[trigger] self@[j]).id != user_id,
            decreases n - i,
        {
            if self.users[i].id == user_id {
                let mut updated = self.users[i].clone();
                updated.status = status;
                updated.updated_at = now;
                let out = updated.clone();
                proof {
                    assert(updated == (User {
                        status,
                        updated_at: now,
                        ..old(self)@[i as int]
                    }));
                }
                self.users[i] = updated;
                proof {
                    let v = final(self)@;
                    assert forall|p: int, q: int| 0 <= p < q < v.len() implies (
                    #[trigger] v[p]).id != (#[trigger] v[q]).id && v[p].email@ != v[q].email@ by {
                        assert(v[p].id == old(self)@[p].id && v[p].email@ == old(self)@[p].email@);
                        assert(v[q].id == old(self)@[q].id && v[q].email@ == old(self)@[q].email@);
                    }
                }
                return Ok(out);
            }
            i += 1;
        }
        Err(NotFoundError::NotFound)
    }
}

} // verus!
