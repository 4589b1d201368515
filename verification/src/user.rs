//! The account model. Credential checks happen outside the engine; the
//! engine only stores accounts and flips their verification status.

use vstd::prelude::*;

verus! {

/// Role of an account holder.
#[derive(Clone, Copy, Debug, PartialEq, Eq, Structural)]
pub enum UserRole {
    Student,
    Admin,
}

impl UserRole {
    /// The lowercase string stored in a user's `role` field for this value.
    pub fn to_role_string(&self) -> (r: String)
        ensures
            *self == UserRole::Student ==> r@ == "student"@,
            *self == UserRole::Admin ==> r@ == "admin"@,
    {
        match self {
            UserRole::Student => "student".to_owned(),
            UserRole::Admin => "admin".to_owned(),
        }
    }
}

/// Reads a stored role string back into a role, as the login path does
/// before issuing a token. Unknown strings are rejected.
pub fn parse_role(s: &String) -> (r: Option<UserRole>)
    ensures
        r == Some(UserRole::Student) <==> s@ == "student"@,
        r == Some(UserRole::Admin) <==> s@ == "admin"@,
        r is None <==> (s@ != "student"@ && s@ != "admin"@),
{
    proof {
        reveal_strlit("student");
        reveal_strlit("admin");
        assert("student"@.len() == 7);
        assert("admin"@.len() == 5);
        assert("student"@ != "admin"@);
    }
    if *s == "student".to_owned() {
        Some(UserRole::Student)
    } else if *s == "admin".to_owned() {
        Some(UserRole::Admin)
    } else {
        None
    }
}

/// Verification status of an account.
#[derive(Clone, Copy, Debug, PartialEq, Eq, Structural)]
pub enum UserStatus {
    Pending,
    Verified,
    Rejected,
}

/// An account: identity, credentials digest, role and verification status.
pub struct User {
    pub id: u128,
    pub email: String,
    pub password_hash: String,
    pub role: String,
    pub status: UserStatus,
    pub created_at: i64,
    pub updated_at: i64,
}

impl Clone for User {
    fn clone(&self) -> (r: Self)
        ensures
            r == *self,
    {
        User {
            id: self.id,
            email: self.email.clone(),
            password_hash: self.password_hash.clone(),
            role: self.role.clone(),
            status: self.status,
            created_at: self.created_at,
            updated_at: self.updated_at,
        }
    }
}

} // verus!
