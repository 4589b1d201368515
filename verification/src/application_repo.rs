//! The store of applications and the guarded status transition. A status
//! change is a one-way move out of `Pending`; a terminal application is
//! never touched again.

use vstd::prelude::*;
use crate::application::{Application, ApplicationStatus};
use crate::counting::lemma_filter_take_step;
use crate::errors::{AlreadyExistsError, WorkflowError};

verus! {

/// Whether some application in `apps` carries the identity `id`.
pub open spec fn has_app_id(apps: Seq<Application>, id: u128) -> bool {
    exists|i: int| 0 <= i < apps.len() && apps[i].id == id
}

/// The collection of applications, identified uniquely.
pub struct ApplicationRepository {
    pub applications: Vec<Application>,
}

impl View for ApplicationRepository {
    type V = Seq<Application>;

    open spec fn view(&self) -> Seq<Application> {
        self.applications@
    }
}

impl ApplicationRepository {
    /// No identity repeats.
    pub open spec fn wf(self) -> bool {
        forall|i: int, j: int|
            0 <= i < j < self@.len() ==> (#[trigger] self@[i]).id != (#[trigger] self@[j]).id
    }

    pub fn new() -> (r: Self)
        ensures
            r@ == Seq::<Application>::empty(),
            r.wf(),
    {
        ApplicationRepository { applications: Vec::new() }
    }

    /// Admits `app` into the store; the identity must be fresh.
    pub fn create(&mut self, app: Application) -> (r: Result<Application, AlreadyExistsError>)
        requires
            old(self).wf(),
        ensures
            final(self).wf(),
            r is Err <==> has_app_id(old(self)@, app.id),
            match r {
                Ok(stored) => {
                    &&& stored == app
                    &&& final(self)@ == old(self)@.push(app)
                },
                Err(e) => {
                    &&& e == AlreadyExistsError::AlreadyExists
                    &&& final(self)@ == old(self)@
                },
            },
    {
        let n = self.applications.len();
        let mut i: usize = 0;
        while i < n
            invariant
                old(self).wf(),
                *self == *old(self),
                n == self@.len(),
                i <= n,
                forall|j: int| 0 <= j < i ==> (#[trigger] self@[j]).id != app.id,
            decreases n - i,
        {
            if self.applications[i].id == app.id {
                return Err(AlreadyExistsError::AlreadyExists);
            }
            i += 1;
        }
        let stored = app.clone();
        self.applications.push(app);
        Ok(stored)
    }

    /// The application carrying identity `id`, if any.
    pub fn find_by_id(&self, id: u128) -> (r: Option<Application>)
        ensures
            match r {
                Some(app) => exists|i: int|
                    0 <= i < self@.len() && (#[trigger] self@[i]).id == id && app == self@[i],
                None => !has_app_id(self@, id),
            },
            r is Some <==> has_app_id(self@, id),
    {
        let n = self.applications.len();
        let mut i: usize = 0;
        while i < n
            invariant
                n == self@.len(),
                i <= n,
                forall|j: int| 0 <= j < i ==> (#[trigger] self@[j]).id != id,
            decreases n - i,
        {
            if self.applications[i].id == id {
                return Some(self.applications[i].clone());
            }
            i += 1;
        }
        None
    }

    /// Every application filed by `user_id`, in store order.
    pub fn find_by_user_id(&self, user_id: u128) -> (r: Vec<Application>)
        ensures
            r@ == self@.filter(|a: Application| a.user_id == user_id),
    {
        let ghost pred = |a: Application| a.user_id == user_id;
        let mut out: Vec<Application> = Vec::new();
        let n = self.applications.len();
        let mut i: usize = 0;
        proof {
            assert(self@.take(0).filter(pred) =~= Seq::<Application>::empty()) by {
                reveal(Seq::filter);
            }
        }
        while i < n
            invariant
                n == self@.len(),
                i <= n,
                out@ == self@.take(i as int).filter(pred),
                pred == (|a: Application| a.user_id == user_id),
            decreases n - i,
        {
            proof {
                lemma_filter_take_step(self@, pred, i as int);
            }
            if self.applications[i].user_id == user_id {
                out.push(self.applications[i].clone());
            }
            i += 1;
        }
        proof {
            assert(self@.take(n as int) =~= self@);
        }
        out
    }

    /// The one-way transition out of `Pending` into the terminal `status`,
    /// attaching `comment`. Fails with `NotFound` for an absent identity
    /// and with `InvalidTransition` for an application already finalized —
    /// a terminal status is never overwritten, and every other stored
    /// application is left untouched.
    pub fn update_status(
        &mut self,
        id: u128,
        status: ApplicationStatus,
        comment: Option<String>,
    ) -> (r: Result<Application, WorkflowError>)
        requires
            old(self).wf(),
            status.spec_is_terminal(),
        ensures
            final(self).wf(),
            match r {
                Ok(app) => exists|i: int|
                    {
                        &&& 0 <= i < old(self)@.len()
                        &&& (#[trigger] old(self)@[i]).id == id
                        &&& old(self)@[i].status == ApplicationStatus::Pending
                        &&& app == old(self)@[i].finalized(status, comment)
                        &&& final(self)@ == old(self)@.update(
                            i,
                            old(self)@[i].finalized(status, comment),
                        )
                    },
                Err(WorkflowError::NotFound) => {
                    &&& !has_app_id(old(self)@, id)
                    &&& final(self)@ == old(self)@
                },
                Err(WorkflowError::InvalidTransition) => {
                    &&& exists|i: int|
                        0 <= i < old(self)@.len() && (#[trigger] old(self)@[i]).id == id && old(
                            self,
                        )@[i].status.spec_is_terminal()
                    &&& final(self)@ == old(self)@
                },
                Err(WorkflowError::CapacityExceeded) => false,
            },
            r is Ok <==> exists|i: int|
                0 <= i < old(self)@.len() && (#[trigger] old(self)@[i]).id == id && old(
                    self,
                )@[i].status == ApplicationStatus::Pending,
            forall|k: int|
                0 <= k < old(self)@.len() && (#[trigger] old(self)@[k]).status.spec_is_terminal()
                    ==> final(self)@[k] == old(self)@[k],
    {
        let n = self.applications.len();
        let mut i: usize = 0;
        while i < n
            invariant
                old(self).wf(),
                *self == *old(self),
                n == self@.len(),
                i <= n,
                forall|j: int| 0 <= j < i ==> (#[trigger] self@[j]).id != id,
            decreases n - i,
        {
            if self.applications[i].id == id {
                if self.applications[i].status.is_terminal() {
                    return Err(WorkflowError::InvalidTransition);
                }
                let mut updated = self.applications[i].clone();
                updated.status = status;
                updated.comment = comment;
                let out = updated.clone();
                proof {
                    assert(updated == old(self)@[i as int].finalized(status, comment));
                }
                self.applications[i] = updated;
                proof {
                    let v = final(self)@;
                    assert forall|p: int, q: int| 0 <= p < q < v.len() implies (
                    #[trigger] v[p]).id != (#[trigger] v[q]).id by {
                        assert(v[p].id == old(self)@[p].id);
                        assert(v[q].id == old(self)@[q].id);
                    }
                }
                return Ok(out);
            }
            i += 1;
        }
        Err(WorkflowError::NotFound)
    }
}

} // verus!
