//! The identity gateway: who the current session belongs to, and which
//! identity an owner reference names.

use crate::error::TaskError;
use crate::task::{owner_view, views, User, UserView};
use vstd::prelude::*;

verus! {

/// The identity that `reference` names: the first identity of `users` with
/// that id, or none where there is no such identity.
pub open spec fn resolve(users: Seq<UserView>, reference: int) -> Option<UserView>
    decreases users.len(),
{
    if users.len() == 0 {
        None
    } else if users[0].id == reference {
        Some(users[0])
    } else {
        resolve(users.drop_first(), reference)
    }
}

/// The mathematical value of an [`IdentityGateway`].
pub ghost struct IdentityView {
    /// The known identities.
    pub users: Seq<UserView>,
    /// The identity of the current session, if a session is active.
    pub current: Option<UserView>,
    /// Whether the session store can be reached.
    pub reachable: bool,
}

/// The in-memory identity gateway.
pub struct IdentityGateway {
    users: Vec<User>,
    current: Option<User>,
    reachable: bool,
}

impl View for IdentityGateway {
    type V = IdentityView;

    closed spec fn view(&self) -> IdentityView {
        IdentityView {
            users: views(self.users@),
            current: owner_view(self.current),
            reachable: self.reachable,
        }
    }
}

impl IdentityGateway {
    /// A reachable gateway that knows `users` and whose session belongs to
    /// `current`.
    pub fn new(users: Vec<User>, current: Option<User>) -> (gateway: IdentityGateway)
        ensures
            gateway@ == (IdentityView {
                users: views(users@),
                current: owner_view(current),
                reachable: true,
            }),
    {
        IdentityGateway { users, current, reachable: true }
    }

    /// Whether the session store can be reached.
    pub fn is_reachable(&self) -> (reachable: bool)
        ensures
            reachable == self@.reachable,
    {
        self.reachable
    }

    /// Begins a session for `current`, or ends the session where it is none.
    pub fn set_current(&mut self, current: Option<User>)
        ensures
            final(self)@ == (IdentityView { current: owner_view(current), ..old(self)@ }),
    {
        self.current = current;
    }

    /// Makes the session store reachable or unreachable.
    pub fn set_reachable(&mut self, reachable: bool)
        ensures
            final(self)@ == (IdentityView { reachable, ..old(self)@ }),
    {
        self.reachable = reachable;
    }

    /// The identity of the current session, or none where no session is
    /// active. Fails with `AuthUnavailable` exactly where the session store
    /// cannot be reached.
    pub fn current_identity(&self) -> (result: Result<Option<User>, TaskError>)
        ensures
            match result {
                Ok(identity) => self@.reachable && owner_view(identity) == self@.current,
                Err(reason) => !self@.reachable && reason == TaskError::AuthUnavailable,
            },
    {
        if !self.reachable {
            return Err(TaskError::AuthUnavailable);
        }
        match &self.current {
            Some(user) => Ok(Some(user.clone())),
            None => Ok(None),
        }
    }

    /// The identity that `reference` names. A reference that names nobody,
    /// the anonymous owner included, resolves to none; the lookup never
    /// fails.
    pub fn resolve_identity(&self, reference: i64) -> (identity: Option<User>)
        ensures
            owner_view(identity) == resolve(self@.users, reference as int),
    {
        let mut at: usize = 0;
        assert(views(self.users@).skip(0) =~= views(self.users@));
        while at < self.users.len()
            invariant
                at <= self.users.len(),
                resolve(views(self.users@), reference as int) == resolve(
                    views(self.users@).skip(at as int),
                    reference as int,
                ),
            decreases self.users.len() - at,
        {
            let ghost rest = views(self.users@).skip(at as int);
            assert(rest[0] == self.users@[at as int]@);
            if self.users[at].id == reference {
                return Some(self.users[at].clone());
            }
            assert(rest.drop_first() =~= views(self.users@).skip(at + 1));
            at += 1;
        }
        None
    }
}

} // verus!
