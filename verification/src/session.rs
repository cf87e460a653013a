//! The session binder's read/write contract over one client's server-side
//! session state. The state itself lives in an external store; this is the
//! binding the rest of the flows rely on. Absence of a bound id signals
//! "unauthenticated", never an error.
use vstd::prelude::*;

verus! {

/// What one session holds: the bound account id, if any.
pub struct SessionState {
    pub user_id: Option<u128>,
}

impl SessionState {
    /// A session no one has signed in to.
    pub fn new() -> (s: SessionState)
        ensures
            s.user_id is None,
    {
        SessionState { user_id: None }
    }

    /// Binds an account id into the session after a successful sign-in.
    /// The store adapter must also rotate the session identifier, to
    /// prevent fixation across the privilege change.
    pub fn bind(&mut self, account_id: u128)
        ensures
            final(self).user_id == Some(account_id),
    {
        self.user_id = Some(account_id);
    }

    /// The bound account id; `None` means unauthenticated.
    pub fn resolve(&self) -> (r: Option<u128>)
        ensures
            r == self.user_id,
    {
        self.user_id
    }

    /// Purges the session state on sign-out.
    pub fn unbind(&mut self)
        ensures
            final(self).user_id is None,
    {
        self.user_id = None;
    }
}

} // verus!
