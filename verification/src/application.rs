//! The assignment request and its lifecycle state machine.

use vstd::prelude::*;

verus! {

/// Lifecycle status of an application. `Pending` is initial; `Approved`
/// and `Rejected` are terminal: no transition leaves them.
#[derive(Clone, Copy, Debug, PartialEq, Eq, Structural)]
pub enum ApplicationStatus {
    Pending,
    Approved,
    Rejected,
}

impl ApplicationStatus {
    /// A terminal status never changes again.
    pub open spec fn spec_is_terminal(&self) -> bool {
        *self == ApplicationStatus::Approved || *self == ApplicationStatus::Rejected
    }

    #[verifier::when_used_as_spec(spec_is_terminal)]
    pub fn is_terminal(&self) -> (r: bool)
        ensures
            r == self.spec_is_terminal(),
    {
        match self {
            ApplicationStatus::Pending => false,
            ApplicationStatus::Approved => true,
            ApplicationStatus::Rejected => true,
        }
    }
}

/// A request linking an applicant to a room, carrying its lifecycle
/// status and an optional administrator comment.
pub struct Application {
    pub id: u128,
    pub user_id: u128,
    pub room_id: u128,
    pub status: ApplicationStatus,
    pub comment: Option<String>,
    pub created_at: i64,
}

impl Application {
    /// The value of this application after the one-way move out of
    /// `Pending` into `status`, with the administrator's comment attached.
    pub open spec fn finalized(self, status: ApplicationStatus, comment: Option<String>) -> Application {
        Application { status, comment, ..self }
    }
}

impl Clone for Application {
    fn clone(&self) -> (r: Self)
        ensures
            r == *self,
    {
        Application {
            id: self.id,
            user_id: self.user_id,
            room_id: self.room_id,
            status: self.status,
            comment: match &self.comment {
                Some(s) => Some(s.clone()),
                None => None,
            },
            created_at: self.created_at,
        }
    }
}

} // verus!
