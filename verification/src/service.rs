//! The task service: it mediates between the identity gateway and the task
//! store, stamps each new task with the identity of the caller, and
//! assembles the tasks a client sees from stored rows and resolved owners.

use crate::error::TaskError;
use crate::identity::{resolve, IdentityGateway, IdentityView};
use crate::mutation::{Mutation, MutationView};
use crate::store::{has_task, StoreView, TaskStore};
use crate::task::{assemble, owner_reference, owner_reference_of, views, SqlTodoView, Todo, TodoView, UserView};
use vstd::prelude::*;

verus! {

/// The latency, in milliseconds, that a caller of the service adds to the
/// creation of a task, so that a client is seen to show the task as pending.
/// Nothing that the library states depends on it.
pub const CREATE_LATENCY_MS: u64 = 1250;

/// Who may toggle or delete a task.
#[derive(Clone, Copy, Debug, PartialEq, Eq, Structural)]
pub enum WritePolicy {
    /// Any caller, signed in or not, may toggle or delete any task.
    AnyCaller,
    /// Only the caller whose owner reference is written on a task may toggle
    /// or delete it; to every other caller the task is as good as absent.
    OwnerOnly,
}

/// What the service works with: its two collaborators and the write policy.
pub struct Context {
    pub store: TaskStore,
    pub identity: IdentityGateway,
    pub policy: WritePolicy,
}

/// The mathematical value of a [`Context`].
pub ghost struct ContextView {
    pub store: StoreView,
    pub identity: IdentityView,
    pub policy: WritePolicy,
}

impl View for Context {
    type V = ContextView;

    open spec fn view(&self) -> ContextView {
        ContextView { store: self.store@, identity: self.identity@, policy: self.policy }
    }
}

impl Context {
    /// The validity of a context: that of its store.
    pub open spec fn wf(&self) -> bool {
        self.store.wf()
    }

    /// A context over the given collaborators in which any caller may write.
    pub fn new(store: TaskStore, identity: IdentityGateway) -> (ctx: Context)
        ensures
            ctx.store == store,
            ctx.identity == identity,
            ctx.policy == WritePolicy::AnyCaller,
    {
        Context { store, identity, policy: WritePolicy::AnyCaller }
    }
}

/// The tasks that a listing shows: one per row and in row order, each with
/// the identity that its owner reference resolves to.
pub open spec fn listing(rows: Seq<SqlTodoView>, users: Seq<UserView>) -> Seq<TodoView> {
    rows.map_values(|row: SqlTodoView| assemble(row, resolve(users, row.user_id)))
}

/// Whether `rows` holds a task `id` whose owner reference is `owner`.
pub open spec fn has_owned_task(rows: Seq<SqlTodoView>, id: int, owner: int) -> bool {
    exists|i: int| 0 <= i < rows.len() && rows[i].id == id && rows[i].user_id == owner
}

impl ContextView {
    /// The owner reference of the caller: the id of the session's identity,
    /// or the anonymous owner.
    pub open spec fn caller(self) -> int {
        owner_reference_of(self.identity.current)
    }

    /// Whether the policy lets the caller write to task `id`.
    pub open spec fn may_write(self, id: int) -> bool {
        self.policy == WritePolicy::AnyCaller || has_owned_task(self.store.rows, id, self.caller())
    }

    /// Why creating a task titled `title` is refused, if it is: an empty
    /// title is rejected before the identity gateway is asked, and the
    /// gateway is asked before the store is written.
    pub open spec fn create_refusal(self, title: Seq<char>) -> Option<TaskError> {
        if title.len() == 0 {
            Some(TaskError::ValidationError)
        } else if !self.identity.reachable {
            Some(TaskError::AuthUnavailable)
        } else if !self.store.accepts_insert() {
            Some(TaskError::StoreError)
        } else {
            None
        }
    }

    /// Why a write to an existing task is refused before the store is
    /// touched, if it is. The identity gateway is asked only where the policy
    /// needs the caller.
    pub open spec fn write_refusal(self) -> Option<TaskError> {
        if self.policy == WritePolicy::OwnerOnly && !self.identity.reachable {
            Some(TaskError::AuthUnavailable)
        } else if !self.store.online {
            Some(TaskError::StoreError)
        } else {
            None
        }
    }

    /// Why setting the completion flag of task `id` is refused, if it is.
    pub open spec fn update_refusal(self, id: int) -> Option<TaskError> {
        if self.write_refusal() is Some {
            self.write_refusal()
        } else if !has_task(self.store.rows, id) || !self.may_write(id) {
            Some(TaskError::NotFound)
        } else {
            None
        }
    }

    /// The context after a task was created by the caller.
    pub open spec fn created(self, title: Seq<char>, created_at: Seq<char>) -> ContextView {
        ContextView { store: self.store.inserted(title, self.caller(), created_at), ..self }
    }

    /// The context after the completion flag of task `id` was written.
    pub open spec fn completion_set(self, id: int, completed: bool) -> ContextView {
        ContextView { store: self.store.completion_set(id, completed), ..self }
    }

    /// The context after task `id` was deleted.
    pub open spec fn deleted(self, id: int) -> ContextView {
        ContextView { store: self.store.deleted(id), ..self }
    }

    /// The service's answer to `mutation`.
    pub open spec fn answer(self, mutation: MutationView) -> Result<(), TaskError> {
        outcome(
            match mutation {
                MutationView::Create { title } => self.create_refusal(title),
                MutationView::ToggleComplete { id, .. } => self.update_refusal(id),
                MutationView::Delete { .. } => self.write_refusal(),
            },
        )
    }

    /// The context after the service answered `mutation`, submitted at the
    /// time `now`: a refused mutation changes nothing.
    pub open spec fn applied(self, mutation: MutationView, now: Seq<char>) -> ContextView {
        if self.answer(mutation) is Err {
            self
        } else {
            match mutation {
                MutationView::Create { title } => self.created(title, now),
                MutationView::ToggleComplete { id, completed } => self.completion_set(
                    id,
                    completed,
                ),
                MutationView::Delete { id } => if self.may_write(id) {
                    self.deleted(id)
                } else {
                    self
                },
            }
        }
    }
}

/// The outcome that a refusal, or its absence, stands for.
pub open spec fn outcome(refusal: Option<TaskError>) -> Result<(), TaskError> {
    match refusal {
        Some(reason) => Err(reason),
        None => Ok(()),
    }
}

/// The store of the context. Fails with `StoreError` exactly where the store
/// cannot be reached.
pub fn pool(ctx: &Context) -> (result: Result<&TaskStore, TaskError>)
    ensures
        match result {
            Ok(store) => ctx@.store.online && *store == ctx.store,
            Err(reason) => !ctx@.store.online && reason == TaskError::StoreError,
        },
{
    if ctx.store.is_online() {
        Ok(&ctx.store)
    } else {
        Err(TaskError::StoreError)
    }
}

/// The identity gateway of the context, for reading the session. Fails with
/// `AuthUnavailable` exactly where the session store cannot be reached.
pub fn auth(ctx: &Context) -> (result: Result<&IdentityGateway, TaskError>)
    ensures
        match result {
            Ok(gateway) => ctx@.identity.reachable && *gateway == ctx.identity,
            Err(reason) => !ctx@.identity.reachable && reason == TaskError::AuthUnavailable,
        },
{
    if ctx.identity.is_reachable() {
        Ok(&ctx.identity)
    } else {
        Err(TaskError::AuthUnavailable)
    }
}

/// Lists every task, oldest first, each with its owner resolved.
///
/// The rows are read first; then each owner reference is resolved on its
/// own. A reference that names nobody leaves the task without an owner; it
/// does not fail the listing. Fails with `StoreError` exactly where the store
/// cannot be reached.
pub fn get_todos(ctx: &Context) -> (result: Result<Vec<Todo>, TaskError>)
    ensures
        match result {
            Ok(todos) => ctx@.store.online && views(todos@) == listing(
                ctx@.store.rows,
                ctx@.identity.users,
            ),
            Err(reason) => !ctx@.store.online && reason == TaskError::StoreError,
        },
{
    let rows = match pool(ctx) {
        Ok(store) => match store.select_all() {
            Ok(rows) => rows,
            Err(reason) => {
                return Err(reason);
            },
        },
        Err(reason) => {
            return Err(reason);
        },
    };
    let mut todos: Vec<Todo> = Vec::new();
    let mut at: usize = 0;
    while at < rows.len()
        invariant
            at <= rows.len(),
            views(rows@) == ctx@.store.rows,
            views(todos@) == listing(ctx@.store.rows, ctx@.identity.users).take(at as int),
        decreases rows.len() - at,
    {
        let owner = ctx.identity.resolve_identity(rows[at].user_id);
        let ghost before = todos@;
        todos.push(rows[at].clone().into_todo(owner));
        assert(views(todos@) =~= listing(ctx@.store.rows, ctx@.identity.users).take(at + 1)) by {
            assert(views(rows@)[at as int] == rows@[at as int]@);
            assert(views(todos@) =~= views(before).push(todos@[at as int]@));
        }
        at += 1;
    }
    assert(listing(ctx@.store.rows, ctx@.identity.users).take(at as int) =~= listing(
        ctx@.store.rows,
        ctx@.identity.users,
    ));
    Ok(todos)
}

/// Checks the title of a task to create: it must not be empty.
pub fn validate_title(title: &String) -> (result: Result<(), TaskError>)
    ensures
        result == outcome(
            if title@.len() == 0 {
                Some(TaskError::ValidationError)
            } else {
                None
            },
        ),
{
    if title.as_str().is_empty() {
        Err(TaskError::ValidationError)
    } else {
        Ok(())
    }
}

/// Creates a task titled `title`, not completed and stamped `created_at`,
/// owned by the identity of the current session or by the anonymous owner
/// where no session is active.
///
/// On success the store holds exactly one row more, the new task, after all
/// others. On failure nothing changes.
pub fn add_todo(ctx: &mut Context, title: String, created_at: String) -> (result: Result<
    (),
    TaskError,
>)
    requires
        old(ctx).wf(),
    ensures
        final(ctx).wf(),
        result == outcome(old(ctx)@.create_refusal(title@)),
        final(ctx)@ == if result is Ok {
            old(ctx)@.created(title@, created_at@)
        } else {
            old(ctx)@
        },
{
    match validate_title(&title) {
        Ok(()) => {},
        Err(reason) => {
            return Err(reason);
        },
    }
    let caller = match auth(ctx) {
        Ok(gateway) => match gateway.current_identity() {
            Ok(identity) => owner_reference(&identity),
            Err(reason) => {
                return Err(reason);
            },
        },
        Err(reason) => {
            return Err(reason);
        },
    };
    match ctx.store.insert(title, caller, created_at) {
        Ok(_) => Ok(()),
        Err(reason) => Err(reason),
    }
}

/// Turns the number of rows that a completion write affected into the
/// outcome of the write: a write that reached no row names a task that does
/// not exist.
pub fn settle_update(affected: u64) -> (result: Result<(), TaskError>)
    ensures
        result == outcome(
            if affected == 0 {
                Some(TaskError::NotFound)
            } else {
                None
            },
        ),
{
    if affected == 0 {
        Err(TaskError::NotFound)
    } else {
        Ok(())
    }
}

/// Decides whether the policy lets the caller write to task `id`, asking the
/// identity gateway and the store only where the policy needs them.
fn permit_write(ctx: &Context, id: u32) -> (result: Result<bool, TaskError>)
    requires
        ctx.wf(),
    ensures
        match result {
            Ok(permitted) => ctx@.write_refusal() is None && permitted == ctx@.may_write(id as int),
            Err(reason) => ctx@.write_refusal() == Some(reason),
        },
{
    match ctx.policy {
        WritePolicy::AnyCaller => {
            match pool(ctx) {
                Ok(_) => Ok(true),
                Err(reason) => Err(reason),
            }
        },
        WritePolicy::OwnerOnly => {
            let caller = match auth(ctx) {
                Ok(gateway) => match gateway.current_identity() {
                    Ok(identity) => owner_reference(&identity),
                    Err(reason) => {
                        return Err(reason);
                    },
                },
                Err(reason) => {
                    return Err(reason);
                },
            };
            match ctx.store.owner_of(id) {
                Ok(Some(owner)) => {
                    proof {
                        let rows = ctx@.store.rows;
                        let at = choose|i: int|
                            0 <= i < rows.len() && rows[i].id == id && rows[i].user_id == owner;
                        if has_owned_task(rows, id as int, caller as int) {
                            let other = choose|i: int|
                                0 <= i < rows.len() && rows[i].id == id && rows[i].user_id
                                    == caller;
                            if other < at {
                                assert(rows[other].id < rows[at].id);
                            } else if at < other {
                                assert(rows[at].id < rows[other].id);
                            }
                        }
                    }
                    Ok(owner == caller)
                },
                Ok(None) => Ok(false),
                Err(reason) => Err(reason),
            }
        },
    }
}

/// Sets the completion flag of task `id`.
///
/// Under `AnyCaller` the caller is not checked against the owner of the
/// task. Fails with `NotFound`, changing nothing, where no task has that id
/// or the policy hides the task from the caller.
pub fn update_todo(ctx: &mut Context, id: u32, completed: bool) -> (result: Result<(), TaskError>)
    requires
        old(ctx).wf(),
    ensures
        final(ctx).wf(),
        result == outcome(old(ctx)@.update_refusal(id as int)),
        final(ctx)@ == if result is Ok {
            old(ctx)@.completion_set(id as int, completed)
        } else {
            old(ctx)@
        },
{
    match permit_write(ctx, id) {
        Ok(true) => {},
        Ok(false) => {
            return Err(TaskError::NotFound);
        },
        Err(reason) => {
            return Err(reason);
        },
    }
    match ctx.store.update_completed(id, completed) {
        Ok(affected) => {
            proof {
                if affected == 0 {
                    assert(ctx@.store.rows =~= old(ctx)@.store.rows);
                }
            }
            settle_update(affected)
        },
        Err(reason) => Err(reason),
    }
}

/// Deletes task `id`.
///
/// Deleting is idempotent: where no task has that id, or the policy hides
/// the task from the caller, the call succeeds and changes nothing. Under
/// `AnyCaller` the caller is not checked against the owner of the task.
pub fn delete_todo(ctx: &mut Context, id: u16) -> (result: Result<(), TaskError>)
    requires
        old(ctx).wf(),
    ensures
        final(ctx).wf(),
        result == outcome(old(ctx)@.write_refusal()),
        final(ctx)@ == if result is Ok && old(ctx)@.may_write(id as int) {
            old(ctx)@.deleted(id as int)
        } else {
            old(ctx)@
        },
{
    match permit_write(ctx, id as u32) {
        Ok(true) => {},
        Ok(false) => {
            return Ok(());
        },
        Err(reason) => {
            return Err(reason);
        },
    }
    match ctx.store.delete(id as u32) {
        Ok(_) => Ok(()),
        Err(reason) => Err(reason),
    }
}

/// Carries `mutation` out against the service. `now` stamps a task that the
/// mutation creates; the other kinds do not use it.
pub fn perform(ctx: &mut Context, mutation: &Mutation, now: String) -> (result: Result<
    (),
    TaskError,
>)
    requires
        old(ctx).wf(),
    ensures
        final(ctx).wf(),
        result == old(ctx)@.answer(mutation@),
        final(ctx)@ == old(ctx)@.applied(mutation@, now@),
{
    match mutation {
        Mutation::Create { title } => add_todo(ctx, title.clone(), now),
        Mutation::ToggleComplete { id, completed } => update_todo(ctx, *id, *completed),
        Mutation::Delete { id } => delete_todo(ctx, *id),
    }
}

} // verus!
