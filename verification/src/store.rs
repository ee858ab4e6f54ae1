//! The task store: the authoritative, ordered table of task rows.
//!
//! Rows are kept in the order in which they were created. Ids are handed out
//! in increasing order and never used twice, so the order of the rows is also
//! the order of their ids.

use crate::error::TaskError;
use crate::task::{views, SqlTodo, SqlTodoView};
use vstd::prelude::*;

verus! {

/// Whether the ids of `rows` strictly increase from each row to the next.
pub open spec fn ids_ascending(rows: Seq<SqlTodoView>) -> bool {
    forall|i: int, j: int| 0 <= i < j < rows.len() ==> rows[i].id < rows[j].id
}

/// Whether some row of `rows` has the id `id`.
pub open spec fn has_task(rows: Seq<SqlTodoView>, id: int) -> bool {
    exists|i: int| 0 <= i < rows.len() && rows[i].id == id
}

/// The rows of `rows` whose id is not `id`, in the order they have in `rows`.
pub open spec fn without_task(rows: Seq<SqlTodoView>, id: int) -> Seq<SqlTodoView> {
    rows.filter(|row: SqlTodoView| row.id != id)
}

/// `rows` with the completion flag of every row whose id is `id` set to
/// `completed`; nothing else changes and no row moves.
pub open spec fn with_completed(rows: Seq<SqlTodoView>, id: int, completed: bool) -> Seq<
    SqlTodoView,
> {
    rows.map_values(
        |row: SqlTodoView|
            if row.id == id {
                SqlTodoView { completed, ..row }
            } else {
                row
            },
    )
}

/// The number of rows a write that names `id` affects. In a well-formed table
/// no id occurs twice, so this is 1 where the id is present and 0 otherwise.
pub open spec fn affected_rows(rows: Seq<SqlTodoView>, id: int) -> nat {
    if has_task(rows, id) {
        1
    } else {
        0
    }
}

/// The mathematical value of a [`TaskStore`].
pub ghost struct StoreView {
    /// The rows, oldest first.
    pub rows: Seq<SqlTodoView>,
    /// The id that the next created row receives.
    pub next_id: int,
    /// Whether the store can be reached.
    pub online: bool,
}

impl StoreView {
    /// The validity of a store: ids are positive, below `next_id`, and
    /// strictly increasing in row order.
    pub open spec fn wf(self) -> bool {
        &&& 1 <= self.next_id <= u32::MAX
        &&& ids_ascending(self.rows)
        &&& forall|i: int| 0 <= i < self.rows.len() ==> 1 <= #[trigger] self.rows[i].id < self.next_id
    }

    /// Whether a row can be created: the store is reachable and an id is
    /// left to hand out.
    pub open spec fn accepts_insert(self) -> bool {
        self.online && self.next_id < u32::MAX
    }

    /// The row that an insert creates: it takes the next id and is not
    /// completed.
    pub open spec fn new_row(self, title: Seq<char>, owner: int, created_at: Seq<char>) -> SqlTodoView {
        SqlTodoView { id: self.next_id, user_id: owner, title, created_at, completed: false }
    }

    /// The store after a row was created: the new row is the last one.
    pub open spec fn inserted(self, title: Seq<char>, owner: int, created_at: Seq<char>) -> StoreView {
        StoreView {
            rows: self.rows.push(self.new_row(title, owner, created_at)),
            next_id: self.next_id + 1,
            ..self
        }
    }

    /// The store after the completion flag of task `id` was written.
    pub open spec fn completion_set(self, id: int, completed: bool) -> StoreView {
        StoreView { rows: with_completed(self.rows, id, completed), ..self }
    }

    /// The store after task `id` was deleted.
    pub open spec fn deleted(self, id: int) -> StoreView {
        StoreView { rows: without_task(self.rows, id), ..self }
    }
}

/// Filtering by a predicate that every item meets changes nothing.
pub proof fn lemma_filter_all<A>(items: Seq<A>, keep: spec_fn(A) -> bool)
    requires
        forall|i: int| 0 <= i < items.len() ==> keep(#[trigger] items[i]),
    ensures
        items.filter(keep) == items,
    decreases items.len(),
{
    reveal(Seq::filter);
    if items.len() > 0 {
        lemma_filter_all(items.drop_last(), keep);
        assert(keep(items.last()));
        assert(items.drop_last().push(items.last()) =~= items);
    }
}

/// Deleting an id that no row has leaves the rows as they are.
pub proof fn lemma_without_absent(rows: Seq<SqlTodoView>, id: int)
    requires
        !has_task(rows, id),
    ensures
        without_task(rows, id) == rows,
{
    lemma_filter_all(rows, |row: SqlTodoView| row.id != id);
}

/// Where ids are distinct, deleting the id of row `at` removes exactly that
/// row.
pub proof fn lemma_without_present(rows: Seq<SqlTodoView>, id: int, at: int)
    requires
        ids_ascending(rows),
        0 <= at < rows.len(),
        rows[at].id == id,
    ensures
        without_task(rows, id) == rows.remove(at),
    decreases rows.len(),
{
    reveal(Seq::filter);
    let keep = |row: SqlTodoView| row.id != id;
    let front = rows.drop_last();
    if at == rows.len() - 1 {
        assert forall|i: int| 0 <= i < front.len() implies keep(#[trigger] front[i]) by {
            assert(rows[i].id < rows[at].id);
        }
        lemma_filter_all(front, keep);
        assert(rows.remove(at) =~= front);
    } else {
        lemma_without_present(front, id, at);
        assert(rows[at].id < rows.last().id);
        assert(keep(rows.last()));
        assert(front.remove(at).push(rows.last()) =~= rows.remove(at));
    }
}

/// After a delete no row has the deleted id.
pub proof fn lemma_without_task_absent(rows: Seq<SqlTodoView>, id: int)
    ensures
        !has_task(without_task(rows, id), id),
{
    let keep = |row: SqlTodoView| row.id != id;
    let rest = rows.filter(keep);
    assert forall|i: int| 0 <= i < rest.len() implies rest[i].id != id by {
        rows.lemma_filter_pred(keep, i);
    }
}

/// Deleting keeps a store valid: the rows that stay are still in ascending
/// order of id.
pub proof fn lemma_delete_keeps_validity(store: StoreView, id: int)
    requires
        store.wf(),
    ensures
        store.deleted(id).wf(),
{
    if has_task(store.rows, id) {
        let at = choose|i: int| 0 <= i < store.rows.len() && store.rows[i].id == id;
        lemma_without_present(store.rows, id, at);
    } else {
        lemma_without_absent(store.rows, id);
    }
}

/// The in-memory task store.
pub struct TaskStore {
    rows: Vec<SqlTodo>,
    next_id: u32,
    online: bool,
}

impl View for TaskStore {
    type V = StoreView;

    closed spec fn view(&self) -> StoreView {
        StoreView { rows: views(self.rows@), next_id: self.next_id as int, online: self.online }
    }
}

impl TaskStore {
    /// The validity that every constructor establishes and every method
    /// preserves.
    pub open spec fn wf(&self) -> bool {
        self@.wf()
    }

    /// An empty, reachable store whose first row will get id 1.
    pub fn new() -> (store: TaskStore)
        ensures
            store.wf(),
            store@ == (StoreView { rows: Seq::empty(), next_id: 1, online: true }),
    {
        let store = TaskStore { rows: Vec::new(), next_id: 1, online: true };
        assert(store@.rows =~= Seq::empty());
        store
    }

    /// Whether the store can be reached.
    pub fn is_online(&self) -> (online: bool)
        ensures
            online == self@.online,
    {
        self.online
    }

    /// Connects or disconnects the store. While it is disconnected every
    /// read and write fails and the rows stay as they are.
    pub fn set_online(&mut self, online: bool)
        ensures
            final(self)@ == (StoreView { online, ..old(self)@ }),
    {
        self.online = online;
    }

    /// The position of the row with id `id`.
    fn position(&self, id: u32) -> (found: Option<usize>)
        ensures
            match found {
                Some(at) => at < self@.rows.len() && self@.rows[at as int].id == id,
                None => !has_task(self@.rows, id as int),
            },
    {
        let mut at: usize = 0;
        while at < self.rows.len()
            invariant
                at <= self.rows.len(),
                forall|i: int| 0 <= i < at ==> views(self.rows@)[i].id != id,
            decreases self.rows.len() - at,
        {
            if self.rows[at].id == id {
                return Some(at);
            }
            at += 1;
        }
        None
    }

    /// Creates a row for a task that is not completed and returns its id.
    ///
    /// Fails with `StoreError`, changing nothing, where the store cannot be
    /// reached or has no id left.
    pub fn insert(&mut self, title: String, owner: i64, created_at: String) -> (result: Result<
        u32,
        TaskError,
    >)
        requires
            old(self).wf(),
        ensures
            final(self).wf(),
            result is Ok <==> old(self)@.accepts_insert(),
            match result {
                Ok(id) => id == old(self)@.next_id && final(self)@ == old(self)@.inserted(
                    title@,
                    owner as int,
                    created_at@,
                ),
                Err(reason) => reason == TaskError::StoreError && final(self)@ == old(self)@,
            },
    {
        if !self.online || self.next_id == u32::MAX {
            return Err(TaskError::StoreError);
        }
        let id = self.next_id;
        let ghost before = self.rows@;
        self.rows.push(SqlTodo { id, user_id: owner, title, created_at, completed: false });
        self.next_id = id + 1;
        assert(views(self.rows@) =~= views(before).push(
            old(self)@.new_row(title@, owner as int, created_at@),
        ));
        Ok(id)
    }

    /// Reads every row, oldest first. Fails with `StoreError` exactly where
    /// the store cannot be reached.
    pub fn select_all(&self) -> (result: Result<Vec<SqlTodo>, TaskError>)
        ensures
            match result {
                Ok(rows) => self@.online && views(rows@) == self@.rows,
                Err(reason) => !self@.online && reason == TaskError::StoreError,
            },
    {
        if !self.online {
            return Err(TaskError::StoreError);
        }
        let mut rows: Vec<SqlTodo> = Vec::new();
        let mut at: usize = 0;
        while at < self.rows.len()
            invariant
                at <= self.rows.len(),
                rows@ == self.rows@.take(at as int),
            decreases self.rows.len() - at,
        {
            rows.push(self.rows[at].clone());
            assert(rows@ =~= self.rows@.take(at + 1));
            at += 1;
        }
        assert(rows@ =~= self.rows@);
        Ok(rows)
    }

    /// Reads the owner reference of task `id`, or none where no row has that
    /// id. Fails with `StoreError` exactly where the store cannot be reached.
    pub fn owner_of(&self, id: u32) -> (result: Result<Option<i64>, TaskError>)
        ensures
            match result {
                Ok(Some(owner)) => self@.online && exists|i: int|
                    0 <= i < self@.rows.len() && self@.rows[i].id == id && self@.rows[i].user_id
                        == owner,
                Ok(None) => self@.online && !has_task(self@.rows, id as int),
                Err(reason) => !self@.online && reason == TaskError::StoreError,
            },
    {
        if !self.online {
            return Err(TaskError::StoreError);
        }
        match self.position(id) {
            Some(at) => {
                let owner = self.rows[at].user_id;
                assert(self@.rows[at as int].user_id == owner);
                Ok(Some(owner))
            },
            None => Ok(None),
        }
    }

    /// Writes the completion flag of task `id` and returns the number of rows
    /// affected: 1 where the task exists, and 0, with nothing changed, where
    /// it does not.
    ///
    /// Fails with `StoreError`, changing nothing, exactly where the store
    /// cannot be reached.
    pub fn update_completed(&mut self, id: u32, completed: bool) -> (result: Result<u64, TaskError>)
        requires
            old(self).wf(),
        ensures
            final(self).wf(),
            result is Ok <==> old(self)@.online,
            match result {
                Ok(affected) => affected == affected_rows(old(self)@.rows, id as int) && final(self)@ == old(self)@.completion_set(id as int, completed),
                Err(reason) => reason == TaskError::StoreError && final(self)@ == old(self)@,
            },
    {
        if !self.online {
            return Err(TaskError::StoreError);
        }
        match self.position(id) {
            Some(at) => {
                let mut row = self.rows[at].clone();
                row.completed = completed;
                self.rows.set(at, row);
                assert(views(self.rows@) =~= with_completed(views(old(self).rows@), id as int, completed)) by {
                    assert forall|i: int| 0 <= i < old(self).rows@.len() && i != at implies views(
                        old(self).rows@,
                    )[i].id != id by {
                        if i < at {
                            assert(old(self)@.rows[i].id < old(self)@.rows[at as int].id);
                        } else {
                            assert(old(self)@.rows[at as int].id < old(self)@.rows[i].id);
                        }
                    }
                }
                Ok(1)
            },
            None => {
                assert(views(self.rows@) =~= with_completed(views(self.rows@), id as int, completed));
                Ok(0)
            },
        }
    }

    /// Deletes task `id` and returns the number of rows affected: 1 where the
    /// task existed, and 0, with nothing changed, where it did not. The rows
    /// that stay keep their order.
    ///
    /// Fails with `StoreError`, changing nothing, exactly where the store
    /// cannot be reached.
    pub fn delete(&mut self, id: u32) -> (result: Result<u64, TaskError>)
        requires
            old(self).wf(),
        ensures
            final(self).wf(),
            result is Ok <==> old(self)@.online,
            match result {
                Ok(affected) => affected == affected_rows(old(self)@.rows, id as int) && final(self)@ == old(self)@.deleted(id as int),
                Err(reason) => reason == TaskError::StoreError && final(self)@ == old(self)@,
            },
    {
        if !self.online {
            return Err(TaskError::StoreError);
        }
        proof {
            lemma_delete_keeps_validity(old(self)@, id as int);
        }
        match self.position(id) {
            Some(at) => {
                self.rows.remove(at);
                proof {
                    lemma_without_present(old(self)@.rows, id as int, at as int);
                    assert(views(self.rows@) =~= views(old(self).rows@).remove(at as int));
                }
                Ok(1)
            },
            None => {
                proof {
                    lemma_without_absent(old(self)@.rows, id as int);
                }
                Ok(0)
            },
        }
    }
}

} // verus!
