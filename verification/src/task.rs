//! The data model: identities, stored task rows and the tasks assembled from
//! them for display.

use vstd::prelude::*;

verus! {

/// The owner reference written on a task that was created without a session.
pub const ANONYMOUS_OWNER: i64 = -1;

/// The views of a sequence of values, item by item and in the same order.
pub open spec fn views<T: View>(items: Seq<T>) -> Seq<T::V> {
    items.map_values(|item: T| item@)
}

/// An identity: created at signup and immutable afterwards. Tasks refer to an
/// identity by its `id`; they never own it.
#[derive(Debug, PartialEq, Eq)]
pub struct User {
    pub id: i64,
    pub username: String,
}

/// The mathematical value of a [`User`].
pub ghost struct UserView {
    pub id: int,
    pub username: Seq<char>,
}

impl View for User {
    type V = UserView;

    open spec fn view(&self) -> UserView {
        UserView { id: self.id as int, username: self.username@ }
    }
}

/// The identity displayed for a task whose owner reference matches no
/// identity, the anonymous owner included.
pub open spec fn guest() -> UserView {
    UserView { id: ANONYMOUS_OWNER as int, username: "Guest"@ }
}

/// The view of an optional identity.
pub open spec fn owner_view(owner: Option<User>) -> Option<UserView> {
    match owner {
        Some(user) => Some(user@),
        None => None,
    }
}

impl Clone for User {
    fn clone(&self) -> (copy: Self)
        ensures
            copy == *self,
    {
        User { id: self.id, username: self.username.clone() }
    }
}

impl Default for User {
    fn default() -> (user: User)
        ensures
            user@ == guest(),
    {
        User { id: ANONYMOUS_OWNER, username: "Guest".to_owned() }
    }
}

/// The owner reference stored with a task created under `identity`: the
/// identity's id, or the anonymous owner where no session is active.
pub open spec fn owner_reference_of(identity: Option<UserView>) -> int {
    match identity {
        Some(user) => user.id,
        None => ANONYMOUS_OWNER as int,
    }
}

/// Computes the owner reference to store with a task created under
/// `identity`.
pub fn owner_reference(identity: &Option<User>) -> (reference: i64)
    ensures
        reference as int == owner_reference_of(owner_view(*identity)),
{
    match identity {
        Some(user) => user.id,
        None => ANONYMOUS_OWNER,
    }
}

/// A task row as the store holds it: the owner is a bare numeric reference.
#[derive(Debug, PartialEq, Eq)]
pub struct SqlTodo {
    pub id: u32,
    pub user_id: i64,
    pub title: String,
    pub created_at: String,
    pub completed: bool,
}

/// The mathematical value of a [`SqlTodo`].
pub ghost struct SqlTodoView {
    pub id: int,
    pub user_id: int,
    pub title: Seq<char>,
    pub created_at: Seq<char>,
    pub completed: bool,
}

impl View for SqlTodo {
    type V = SqlTodoView;

    open spec fn view(&self) -> SqlTodoView {
        SqlTodoView {
            id: self.id as int,
            user_id: self.user_id as int,
            title: self.title@,
            created_at: self.created_at@,
            completed: self.completed,
        }
    }
}

impl Clone for SqlTodo {
    fn clone(&self) -> (copy: Self)
        ensures
            copy == *self,
    {
        SqlTodo {
            id: self.id,
            user_id: self.user_id,
            title: self.title.clone(),
            created_at: self.created_at.clone(),
            completed: self.completed,
        }
    }
}

/// A task as a client displays it: the owner reference of the stored row has
/// been resolved to an identity, or to none where no identity matches.
#[derive(Debug, PartialEq, Eq)]
pub struct Todo {
    pub id: u32,
    pub user: Option<User>,
    pub title: String,
    pub created_at: String,
    pub completed: bool,
}

/// The mathematical value of a [`Todo`].
pub ghost struct TodoView {
    pub id: int,
    pub user: Option<UserView>,
    pub title: Seq<char>,
    pub created_at: Seq<char>,
    pub completed: bool,
}

impl TodoView {
    /// The name displayed as the task's owner: the owner's username, or the
    /// guest's where the task has no resolved owner.
    pub open spec fn owner_name(self) -> Seq<char> {
        match self.user {
            Some(user) => user.username,
            None => guest().username,
        }
    }

    /// The same task with its completion flag set to `completed`.
    pub open spec fn with_completed(self, completed: bool) -> TodoView {
        TodoView { completed, ..self }
    }
}

impl View for Todo {
    type V = TodoView;

    open spec fn view(&self) -> TodoView {
        TodoView {
            id: self.id as int,
            user: owner_view(self.user),
            title: self.title@,
            created_at: self.created_at@,
            completed: self.completed,
        }
    }
}

impl Clone for Todo {
    fn clone(&self) -> (copy: Self)
        ensures
            copy == *self,
    {
        let user = match &self.user {
            Some(user) => Some(user.clone()),
            None => None,
        };
        Todo {
            id: self.id,
            user,
            title: self.title.clone(),
            created_at: self.created_at.clone(),
            completed: self.completed,
        }
    }
}

impl Todo {
    /// The name to display as the task's owner.
    pub fn owner_name(&self) -> (name: String)
        ensures
            name@ == self@.owner_name(),
    {
        match &self.user {
            Some(user) => user.username.clone(),
            None => User::default().username,
        }
    }
}

/// The task assembled from a stored row and the identity its owner reference
/// resolved to: every field of the row is kept, the reference gives way to
/// the identity.
pub open spec fn assemble(row: SqlTodoView, owner: Option<UserView>) -> TodoView {
    TodoView {
        id: row.id,
        user: owner,
        title: row.title,
        created_at: row.created_at,
        completed: row.completed,
    }
}

impl SqlTodo {
    /// Turns the row into a task, given what its owner reference resolved to.
    pub fn into_todo(self, user: Option<User>) -> (todo: Todo)
        ensures
            todo@ == assemble(self@, owner_view(user)),
    {
        Todo {
            id: self.id,
            user,
            title: self.title,
            created_at: self.created_at,
            completed: self.completed,
        }
    }
}

} // verus!
