//! The reconciled view model: the one ordered list a client displays, made
//! of the last confirmed task list and the create-mutations still pending.

use crate::dispatcher::{failure_reasons, pending_titles, Dispatcher, DispatcherView, Handle};
use crate::error::TaskError;
use crate::mutation::{MutationKind, MutationView};
use crate::service::{get_todos, listing, Context, ContextView};
use crate::task::{views, Todo, TodoView};
use vstd::prelude::*;

verus! {

/// One line of the displayed list.
#[derive(Debug, PartialEq, Eq)]
pub enum Entry {
    /// A task of the last confirmed list.
    Task(Todo),
    /// A task whose creation is still pending: it has no id and no owner
    /// yet, and a client shows it disabled.
    Pending { title: String },
}

/// The mathematical value of an [`Entry`].
pub ghost enum EntryView {
    Task(TodoView),
    Pending { title: Seq<char> },
}

impl View for Entry {
    type V = EntryView;

    open spec fn view(&self) -> EntryView {
        match self {
            Entry::Task(todo) => EntryView::Task(todo@),
            Entry::Pending { title } => EntryView::Pending { title: title@ },
        }
    }
}

/// What stands in place of the confirmed tasks.
#[derive(Clone, Copy, Debug, PartialEq, Eq, Structural)]
pub enum ListStatus {
    /// No list has been fetched yet.
    Loading,
    /// The last fetched list holds no task.
    Empty,
    /// The last fetched list holds at least one task.
    Listed,
}

/// `todos` with the completion flag of every task whose id is `id` set to
/// `completed`; nothing else changes and no task moves.
pub open spec fn with_flag(todos: Seq<TodoView>, id: int, completed: bool) -> Seq<TodoView> {
    todos.map_values(
        |todo: TodoView|
            if todo.id == id {
                todo.with_completed(completed)
            } else {
                todo
            },
    )
}

/// The mathematical value of a [`ViewModel`].
pub ghost struct ViewModelView {
    /// The last confirmed task list.
    pub todos: Seq<TodoView>,
    /// Why the last refetch failed, if it did.
    pub error: Option<TaskError>,
    /// Whether a list has been fetched at least once.
    pub loaded: bool,
    /// The create and delete version counters as last observed, or none
    /// before the first observation.
    pub observed: Option<(nat, nat)>,
}

impl ViewModelView {
    /// The counters that gate a refetch: those of create and of delete. The
    /// toggle counter does not.
    pub open spec fn gate(dispatcher: DispatcherView) -> (nat, nat) {
        (dispatcher.version(MutationKind::Create), dispatcher.version(MutationKind::Delete))
    }

    /// Whether a refetch is due: the gating counters have never been
    /// observed, or have changed since they last were.
    pub open spec fn is_stale(self, dispatcher: DispatcherView) -> bool {
        self.observed != Some(Self::gate(dispatcher))
    }

    /// The view model after it observed the gating counters.
    pub open spec fn observing(self, dispatcher: DispatcherView) -> ViewModelView {
        ViewModelView { observed: Some(Self::gate(dispatcher)), ..self }
    }

    /// The view model after a refetch returned `fetched`: a list replaces
    /// the confirmed list and clears the error; a failure is kept as the
    /// error beside the list, which stays as it was.
    pub open spec fn refreshed(self, fetched: Result<Seq<TodoView>, TaskError>) -> ViewModelView {
        match fetched {
            Ok(todos) => ViewModelView { todos, error: None, loaded: true, ..self },
            Err(reason) => ViewModelView { error: Some(reason), ..self },
        }
    }

    /// The view model after the completion flag of task `id` was flipped
    /// locally.
    pub open spec fn toggled(self, id: int, completed: bool) -> ViewModelView {
        ViewModelView { todos: with_flag(self.todos, id, completed), ..self }
    }

    /// What the service returns for a listing of `ctx`.
    pub open spec fn fetched(ctx: ContextView) -> Result<Seq<TodoView>, TaskError> {
        if ctx.store.online {
            Ok(listing(ctx.store.rows, ctx.identity.users))
        } else {
            Err(TaskError::StoreError)
        }
    }

    /// The view model after it looked at the gating counters and, where a
    /// refetch was due, fetched the list from the service.
    pub open spec fn synced(self, dispatcher: DispatcherView, ctx: ContextView) -> ViewModelView {
        if self.is_stale(dispatcher) {
            self.observing(dispatcher).refreshed(Self::fetched(ctx))
        } else {
            self
        }
    }

    /// What stands in place of the confirmed tasks.
    pub open spec fn status(self) -> ListStatus {
        if !self.loaded {
            ListStatus::Loading
        } else if self.todos.len() == 0 {
            ListStatus::Empty
        } else {
            ListStatus::Listed
        }
    }

    /// The displayed list: the confirmed tasks in their order, then one
    /// pending entry for each create-mutation that is still pending, in the
    /// order of submission.
    pub open spec fn reconciled(self, dispatcher: DispatcherView) -> Seq<EntryView> {
        self.todos.map_values(|todo: TodoView| EntryView::Task(todo)) + pending_titles(
            dispatcher.submissions,
        ).map_values(|title: Seq<char>| EntryView::Pending { title })
    }

    /// The failures to show beside the list: that of the last refetch, if it
    /// failed, then the reasons of the failed mutations in the order of
    /// submission.
    pub open spec fn notices(self, dispatcher: DispatcherView) -> Seq<TaskError> {
        (match self.error {
            Some(reason) => seq![reason],
            None => Seq::empty(),
        }) + failure_reasons(dispatcher.submissions)
    }
}

/// The in-memory view model.
pub struct ViewModel {
    todos: Vec<Todo>,
    error: Option<TaskError>,
    loaded: bool,
    observed: Option<(u64, u64)>,
}

impl View for ViewModel {
    type V = ViewModelView;

    closed spec fn view(&self) -> ViewModelView {
        ViewModelView {
            todos: views(self.todos@),
            error: self.error,
            loaded: self.loaded,
            observed: match self.observed {
                Some((create, delete)) => Some((create as nat, delete as nat)),
                None => None,
            },
        }
    }
}

impl ViewModel {
    /// A view model that has fetched and observed nothing yet.
    pub fn new() -> (model: ViewModel)
        ensures
            model@ == (ViewModelView {
                todos: Seq::empty(),
                error: None,
                loaded: false,
                observed: None,
            }),
    {
        let model = ViewModel { todos: Vec::new(), error: None, loaded: false, observed: None };
        assert(model@.todos =~= Seq::empty());
        model
    }

    /// Observes the create and delete version counters and tells whether a
    /// refetch is due: it is on the first observation and whenever one of
    /// the two counters has changed since the last. The observation is
    /// remembered, so asking again without a change in between gives no.
    pub fn observe(&mut self, dispatcher: &Dispatcher) -> (due: bool)
        requires
            dispatcher.wf(),
        ensures
            due == old(self)@.is_stale(dispatcher@),
            final(self)@ == old(self)@.observing(dispatcher@),
    {
        let create = dispatcher.version(MutationKind::Create);
        let delete = dispatcher.version(MutationKind::Delete);
        let due = match self.observed {
            Some((seen_create, seen_delete)) => seen_create != create || seen_delete != delete,
            None => true,
        };
        self.observed = Some((create, delete));
        due
    }

    /// Takes in the result of a refetch. A fetched list replaces the
    /// confirmed list and clears the error. A failure is kept as the error
    /// and the confirmed list stays: a failed read never empties the display.
    pub fn refresh(&mut self, fetched: Result<Vec<Todo>, TaskError>)
        ensures
            final(self)@ == old(self)@.refreshed(
                match fetched {
                    Ok(todos) => Ok(views(todos@)),
                    Err(reason) => Err(reason),
                },
            ),
    {
        match fetched {
            Ok(todos) => {
                self.todos = todos;
                self.error = None;
                self.loaded = true;
            },
            Err(reason) => {
                self.error = Some(reason);
            },
        }
    }

    /// Refetches the task list from the service where a refetch is due, and
    /// only then: the view model does not poll. Returns whether it fetched.
    pub fn refetch_if_stale(&mut self, dispatcher: &Dispatcher, ctx: &Context) -> (fetched: bool)
        requires
            dispatcher.wf(),
        ensures
            fetched == old(self)@.is_stale(dispatcher@),
            final(self)@ == old(self)@.synced(dispatcher@, ctx@),
    {
        if self.observe(dispatcher) {
            self.refresh(get_todos(ctx));
            true
        } else {
            assert(self@ == old(self)@);
            false
        }
    }

    /// Flips the completion flag of task `id` in the confirmed list, at
    /// once and without a refetch. The flip is not taken back if the
    /// mutation behind it fails later.
    pub fn toggle(&mut self, id: u32, completed: bool)
        ensures
            final(self)@ == old(self)@.toggled(id as int, completed),
    {
        let ghost before = self.todos@;
        let ghost flipped = with_flag(old(self)@.todos, id as int, completed);
        let mut at: usize = 0;
        while at < self.todos.len()
            invariant
                at <= self.todos.len(),
                self.todos@.len() == before.len(),
                self.error == old(self).error,
                self.loaded == old(self).loaded,
                self.observed == old(self).observed,
                before == old(self).todos@,
                flipped == with_flag(old(self)@.todos, id as int, completed),
                forall|i: int| 0 <= i < at ==> (#[trigger] self.todos@[i])@ == flipped[i],
                forall|i: int| at <= i < before.len() ==> #[trigger] self.todos@[i] == before[i],
            decreases self.todos.len() - at,
        {
            if self.todos[at].id == id {
                let mut todo = self.todos[at].clone();
                todo.completed = completed;
                self.todos.set(at, todo);
            }
            at += 1;
        }
        assert(self@.todos =~= old(self)@.toggled(id as int, completed).todos);
    }

    /// Flips the completion flag of task `id` locally and submits the
    /// toggle-mutation that asks the service for the same.
    pub fn submit_toggle(&mut self, dispatcher: &mut Dispatcher, id: u32, completed: bool) -> (handle: Handle)
        requires
            old(dispatcher).wf(),
        ensures
            final(dispatcher).wf(),
            handle.0 == old(dispatcher)@.submissions.len(),
            final(self)@ == old(self)@.toggled(id as int, completed),
            final(dispatcher)@ == old(dispatcher)@.submitted(
                MutationView::ToggleComplete { id: id as int, completed },
            ),
            forall|kind: MutationKind|
                #![trigger final(dispatcher)@.version(kind)]
                final(dispatcher)@.version(kind) == old(dispatcher)@.version(kind),
    {
        self.toggle(id, completed);
        dispatcher.submit_toggle(id, completed)
    }

    /// The last confirmed task list.
    pub fn todos(&self) -> (todos: &Vec<Todo>)
        ensures
            views(todos@) == self@.todos,
    {
        &self.todos
    }

    /// What stands in place of the confirmed tasks: a notice that the list
    /// is loading, a notice that there are no tasks, or the tasks.
    pub fn status(&self) -> (status: ListStatus)
        ensures
            status == self@.status(),
    {
        if !self.loaded {
            ListStatus::Loading
        } else if self.todos.len() == 0 {
            ListStatus::Empty
        } else {
            ListStatus::Listed
        }
    }

    /// Why the last refetch failed, if it did.
    pub fn error(&self) -> (error: Option<TaskError>)
        ensures
            error == self@.error,
    {
        self.error
    }

    /// The list to display: every confirmed task, then every task whose
    /// creation is still pending. A pending entry is there exactly as long
    /// as its mutation is pending; it is never matched with a confirmed task
    /// by title.
    pub fn reconciled_view(&self, dispatcher: &Dispatcher) -> (entries: Vec<Entry>)
        requires
            dispatcher.wf(),
        ensures
            views(entries@) == self@.reconciled(dispatcher@),
    {
        let pending = dispatcher.pending_creates();
        let mut entries: Vec<Entry> = Vec::new();
        let ghost confirmed = self@.todos.map_values(|todo: TodoView| EntryView::Task(todo));
        let ghost waiting = pending_titles(dispatcher@.submissions).map_values(
            |title: Seq<char>| EntryView::Pending { title },
        );
        let mut at: usize = 0;
        while at < self.todos.len()
            invariant
                at <= self.todos.len(),
                confirmed == self@.todos.map_values(|todo: TodoView| EntryView::Task(todo)),
                views(entries@) == confirmed.take(at as int),
            decreases self.todos.len() - at,
        {
            let ghost before = entries@;
            entries.push(Entry::Task(self.todos[at].clone()));
            assert(views(entries@) =~= views(before).push(EntryView::Task(self.todos@[at as int]@)));
            assert(views(entries@) =~= confirmed.take(at + 1));
            at += 1;
        }
        assert(confirmed.take(at as int) =~= confirmed);
        let mut next: usize = 0;
        while next < pending.len()
            invariant
                next <= pending.len(),
                views(pending@) == pending_titles(dispatcher@.submissions),
                waiting == pending_titles(dispatcher@.submissions).map_values(
                    |title: Seq<char>| EntryView::Pending { title },
                ),
                views(entries@) == confirmed + waiting.take(next as int),
            decreases pending.len() - next,
        {
            let ghost before = entries@;
            entries.push(Entry::Pending { title: pending[next].clone() });
            assert(views(pending@)[next as int] == pending@[next as int]@);
            assert(views(entries@) =~= views(before).push(
                EntryView::Pending { title: pending@[next as int]@ },
            ));
            assert(views(entries@) =~= confirmed + waiting.take(next + 1));
            next += 1;
        }
        assert(waiting.take(next as int) =~= waiting);
        entries
    }

    /// The failures to show beside the list: that of the last refetch, if it
    /// failed, then the reasons of the failed mutations in the order of
    /// submission.
    pub fn notices(&self, dispatcher: &Dispatcher) -> (reasons: Vec<TaskError>)
        requires
            dispatcher.wf(),
        ensures
            reasons@ == self@.notices(dispatcher@),
    {
        let mut reasons: Vec<TaskError> = Vec::new();
        match self.error {
            Some(reason) => {
                reasons.push(reason);
            },
            None => {},
        }
        let ghost head = reasons@;
        let failed = dispatcher.failures();
        let mut at: usize = 0;
        while at < failed.len()
            invariant
                at <= failed.len(),
                reasons@ == head + failed@.take(at as int),
            decreases failed.len() - at,
        {
            reasons.push(failed[at]);
            assert(reasons@ =~= head + failed@.take(at + 1));
            at += 1;
        }
        assert(failed@.take(at as int) =~= failed@);
        assert(head =~= match self.error {
            Some(reason) => seq![reason],
            None => Seq::empty(),
        });
        reasons
    }
}

} // verus!
