//! What a client shows of the session: who is signed in, if anybody.

use crate::error::TaskError;
use crate::task::{owner_view, User};
use vstd::prelude::*;

verus! {

/// What the page header shows of the session.
#[derive(Debug, PartialEq, Eq)]
pub enum Header {
    /// The session has not been read yet.
    Loading,
    /// Nobody is signed in: the header offers to sign up and to log in, and
    /// shows why the session could not be read where that is the case.
    SignedOut { error: Option<TaskError> },
    /// Somebody is signed in: the header shows the username.
    SignedIn { username: String },
}

/// The mathematical value of a [`Header`].
pub ghost enum HeaderView {
    Loading,
    SignedOut { error: Option<TaskError> },
    SignedIn { username: Seq<char> },
}

impl View for Header {
    type V = HeaderView;

    open spec fn view(&self) -> HeaderView {
        match self {
            Header::Loading => HeaderView::Loading,
            Header::SignedOut { error } => HeaderView::SignedOut { error: *error },
            Header::SignedIn { username } => HeaderView::SignedIn { username: username@ },
        }
    }
}

/// The header for what is known of the session: none while the session is
/// being read, else the result of reading it.
pub open spec fn header_of(session: Option<Result<Option<User>, TaskError>>) -> HeaderView {
    match session {
        None => HeaderView::Loading,
        Some(Err(reason)) => HeaderView::SignedOut { error: Some(reason) },
        Some(Ok(None)) => HeaderView::SignedOut { error: None },
        Some(Ok(Some(user))) => HeaderView::SignedIn { username: owner_view(Some(user))->0.username },
    }
}

/// Decides what the page header shows of the session.
pub fn session_header(session: Option<Result<Option<User>, TaskError>>) -> (header: Header)
    ensures
        header@ == header_of(session),
{
    match session {
        None => Header::Loading,
        Some(Err(reason)) => Header::SignedOut { error: Some(reason) },
        Some(Ok(None)) => Header::SignedOut { error: None },
        Some(Ok(Some(user))) => Header::SignedIn { username: user.username },
    }
}

} // verus!
