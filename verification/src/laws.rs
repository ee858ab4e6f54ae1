//! What holds of the library as a whole: laws that relate several
//! operations, stated over the mathematical values of the types.

use crate::dispatcher::{
    lemma_filter_push, lemma_settle_advances_version, lemma_submit_keeps_versions,
    pending_titles, DispatcherView, SubmissionView,
};
use crate::error::TaskError;
use crate::mutation::{MutationKind, MutationState, MutationView};
use crate::service::{has_owned_task, listing, ContextView};
use crate::store::{
    has_task, lemma_filter_all, lemma_without_absent, lemma_without_present,
    lemma_without_task_absent, without_task,
};
use crate::task::{SqlTodoView, TodoView};
use crate::view_model::{EntryView, ViewModelView};
use vstd::prelude::*;

verus! {

/// Filtering by a predicate that no item meets leaves nothing.
pub proof fn lemma_filter_none<A>(items: Seq<A>, keep: spec_fn(A) -> bool)
    requires
        forall|i: int| 0 <= i < items.len() ==> !keep(#[trigger] items[i]),
    ensures
        items.filter(keep) == Seq::<A>::empty(),
    decreases items.len(),
{
    reveal(Seq::filter);
    if items.len() > 0 {
        lemma_filter_none(items.drop_last(), keep);
        assert(!keep(items.last()));
    }
}

/// Deleting is idempotent on the rows: a second delete of the same id
/// changes nothing, and after the first the id is absent, whether or not it
/// was present before.
pub proof fn lemma_delete_rows_idempotent(rows: Seq<SqlTodoView>, id: int)
    ensures
        !has_task(without_task(rows, id), id),
        without_task(without_task(rows, id), id) == without_task(rows, id),
{
    lemma_without_task_absent(rows, id);
    lemma_without_absent(without_task(rows, id), id);
}

/// Deleting a task through the service twice gives the same answers and
/// leaves the same state as deleting it once.
pub proof fn lemma_delete_idempotent(ctx: ContextView, id: int, now: Seq<char>)
    ensures
        ({
            let delete = MutationView::Delete { id };
            let once = ctx.applied(delete, now);
            &&& once.answer(delete) == ctx.answer(delete)
            &&& once.applied(delete, now) == once
            &&& ctx.answer(delete) is Ok && ctx.may_write(id) ==> !has_task(once.store.rows, id)
        }),
{
    let delete = MutationView::Delete { id };
    let once = ctx.applied(delete, now);
    lemma_delete_rows_idempotent(ctx.store.rows, id);
    if ctx.answer(delete) is Ok && ctx.may_write(id) {
        assert(!has_task(once.store.rows, id));
        assert(!has_owned_task(once.store.rows, id, once.caller()));
    }
}

/// One mutation together with the time at which it reaches the service.
pub ghost struct Request {
    pub mutation: MutationView,
    pub now: Seq<char>,
}

/// The context after the service answered `requests` one after the other.
pub open spec fn replay(ctx: ContextView, requests: Seq<Request>) -> ContextView
    decreases requests.len(),
{
    if requests.len() == 0 {
        ctx
    } else {
        replay(ctx, requests.drop_last()).applied(requests.last().mutation, requests.last().now)
    }
}

/// One answered mutation keeps the store valid, never lowers the next id,
/// and brings back no id that was handed out before and is gone.
pub proof fn lemma_applied_keeps_order(ctx: ContextView, request: Request)
    requires
        ctx.store.wf(),
    ensures
        ({
            let after = ctx.applied(request.mutation, request.now);
            &&& after.store.wf()
            &&& after.identity == ctx.identity
            &&& after.policy == ctx.policy
            &&& after.store.online == ctx.store.online
            &&& ctx.store.next_id <= after.store.next_id
            &&& forall|i: int|
                0 <= i < after.store.rows.len() && (#[trigger] after.store.rows[i]).id
                    < ctx.store.next_id ==> has_task(ctx.store.rows, after.store.rows[i].id)
        }),
{
    let after = ctx.applied(request.mutation, request.now);
    if ctx.answer(request.mutation) is Ok {
        match request.mutation {
            MutationView::Create { title } => {
                assert forall|i: int|
                    0 <= i < after.store.rows.len() && (#[trigger] after.store.rows[i]).id
                        < ctx.store.next_id implies has_task(
                    ctx.store.rows,
                    after.store.rows[i].id,
                ) by {
                    assert(after.store.rows[i] == ctx.store.rows[i]);
                }
            },
            MutationView::ToggleComplete { id, completed } => {
                assert forall|i: int| 0 <= i < after.store.rows.len() implies has_task(
                    ctx.store.rows,
                    (#[trigger] after.store.rows[i]).id,
                ) by {
                    assert(ctx.store.rows[i].id == after.store.rows[i].id);
                }
            },
            MutationView::Delete { id } => {
                if ctx.may_write(id) && has_task(ctx.store.rows, id) {
                    let at = choose|i: int| 0 <= i < ctx.store.rows.len() && ctx.store.rows[i].id == id;
                    lemma_without_present(ctx.store.rows, id, at);
                    assert forall|i: int| 0 <= i < after.store.rows.len() implies has_task(
                        ctx.store.rows,
                        (#[trigger] after.store.rows[i]).id,
                    ) by {
                        if i < at {
                            assert(ctx.store.rows[i].id == after.store.rows[i].id);
                        } else {
                            assert(ctx.store.rows[i + 1].id == after.store.rows[i].id);
                        }
                    }
                } else {
                    if ctx.may_write(id) {
                        lemma_without_absent(ctx.store.rows, id);
                    }
                    assert forall|i: int| 0 <= i < after.store.rows.len() implies has_task(
                        ctx.store.rows,
                        (#[trigger] after.store.rows[i]).id,
                    ) by {
                        assert(ctx.store.rows[i].id == after.store.rows[i].id);
                    }
                }
            },
        }
    } else {
        assert forall|i: int| 0 <= i < after.store.rows.len() implies has_task(
            ctx.store.rows,
            (#[trigger] after.store.rows[i]).id,
        ) by {
            assert(ctx.store.rows[i].id == after.store.rows[i].id);
        }
    }
}

/// A listing is always in the order of creation, whatever was created,
/// toggled or deleted before it.
///
/// Ids are handed out in increasing order, so an earlier task has the
/// smaller id. After any sequence of mutations the listing has one task per
/// row, its ids strictly increase, and an id below the next id of before
/// appears only where its task was there before: every task created since
/// has a greater id, and so stands after every task that was there before.
pub proof fn lemma_listing_in_creation_order(ctx: ContextView, requests: Seq<Request>)
    requires
        ctx.store.wf(),
    ensures
        ({
            let after = replay(ctx, requests);
            let shown = listing(after.store.rows, after.identity.users);
            &&& after.store.wf()
            &&& after.identity == ctx.identity
            &&& after.policy == ctx.policy
            &&& after.store.online == ctx.store.online
            &&& ctx.store.next_id <= after.store.next_id
            &&& shown.len() == after.store.rows.len()
            &&& forall|i: int, j: int| 0 <= i < j < shown.len() ==> shown[i].id < shown[j].id
            &&& forall|i: int|
                0 <= i < shown.len() && (#[trigger] shown[i]).id < ctx.store.next_id ==> has_task(
                    ctx.store.rows,
                    shown[i].id,
                )
        }),
    decreases requests.len(),
{
    if requests.len() > 0 {
        let before = replay(ctx, requests.drop_last());
        lemma_listing_in_creation_order(ctx, requests.drop_last());
        lemma_applied_keeps_order(before, requests.last());
        let after = replay(ctx, requests);
        let shown = listing(after.store.rows, after.identity.users);
        assert forall|i: int|
            0 <= i < shown.len() && (#[trigger] shown[i]).id < ctx.store.next_id implies has_task(
            ctx.store.rows,
            shown[i].id,
        ) by {
            let id = after.store.rows[i].id;
            assert(has_task(before.store.rows, id));
            let at = choose|k: int| 0 <= k < before.store.rows.len() && before.store.rows[k].id == id;
            let earlier = listing(before.store.rows, before.identity.users);
            assert(earlier[at].id == id);
        }
    }
}

/// Whether every request of `requests` creates a task with a title that is
/// not empty.
pub open spec fn all_creates(requests: Seq<Request>) -> bool {
    forall|k: int|
        0 <= k < requests.len() ==> (#[trigger] requests[k]).mutation is Create
            && requests[k].mutation->title.len() > 0
}

/// The row that the `k`-th of `requests` creates in `ctx`.
pub open spec fn created_row(ctx: ContextView, requests: Seq<Request>, k: int) -> SqlTodoView {
    SqlTodoView {
        id: ctx.store.next_id + k,
        user_id: ctx.caller(),
        title: requests[k].mutation->title,
        created_at: requests[k].now,
        completed: false,
    }
}

/// Creates append in the order in which they arrive: where the collaborators
/// can be reached and ids are left, a sequence of creates leaves the rows
/// that were there, followed by one row per create, in the order of the
/// creates, with consecutive ids.
pub proof fn lemma_creates_append_in_order(ctx: ContextView, requests: Seq<Request>)
    requires
        ctx.store.wf(),
        ctx.store.online,
        ctx.identity.reachable,
        ctx.store.next_id + requests.len() <= u32::MAX,
        all_creates(requests),
    ensures
        replay(ctx, requests).store.rows == ctx.store.rows + Seq::new(
            requests.len(),
            |k: int| created_row(ctx, requests, k),
        ),
        replay(ctx, requests).store.next_id == ctx.store.next_id + requests.len(),
        replay(ctx, requests).identity == ctx.identity,
        replay(ctx, requests).store.online,
    decreases requests.len(),
{
    if requests.len() > 0 {
        let front = requests.drop_last();
        lemma_creates_append_in_order(ctx, front);
        let before = replay(ctx, front);
        let last = requests.last();
        assert(last.mutation is Create && last.mutation->title.len() > 0);
        assert(before.answer(last.mutation) is Ok);
        assert(replay(ctx, requests).store.rows =~= ctx.store.rows + Seq::new(
            requests.len(),
            |k: int| created_row(ctx, requests, k),
        )) by {
            assert forall|k: int| 0 <= k < front.len() implies created_row(ctx, front, k)
                == created_row(ctx, requests, k) by {
                assert(front[k] == requests[k]);
            }
        }
    }
}

/// Submitting a create-mutation adds exactly one pending entry, after all
/// others; submitting any other mutation adds none.
pub proof fn lemma_submit_adds_pending(dispatcher: DispatcherView, mutation: MutationView)
    ensures
        pending_titles(dispatcher.submitted(mutation).submissions) == if mutation is Create {
            pending_titles(dispatcher.submissions).push(mutation->title)
        } else {
            pending_titles(dispatcher.submissions)
        },
{
    let keep = |s: SubmissionView| s.is_pending_create();
    let added = SubmissionView { mutation, state: MutationState::Pending };
    lemma_filter_push(dispatcher.submissions, added, keep);
    if mutation is Create {
        assert(pending_titles(dispatcher.submitted(mutation).submissions) =~= pending_titles(
            dispatcher.submissions,
        ).push(mutation->title));
    }
}

/// A terminal state is final, and a handle stays with its mutation: neither
/// a submission nor an answer to any handle changes a mutation that has
/// reached a terminal state, and none changes what a tracked mutation asks
/// for.
pub proof fn lemma_terminal_is_final(
    dispatcher: DispatcherView,
    at: int,
    mutation: MutationView,
    handle: int,
    outcome: Result<(), TaskError>,
)
    requires
        0 <= at < dispatcher.submissions.len(),
    ensures
        dispatcher.submitted(mutation).submissions[at] == dispatcher.submissions[at],
        dispatcher.settled(handle, outcome).submissions.len() == dispatcher.submissions.len(),
        dispatcher.settled(handle, outcome).submissions[at].mutation
            == dispatcher.submissions[at].mutation,
        dispatcher.submissions[at].state.is_terminal() ==> dispatcher.settled(
            handle,
            outcome,
        ).submissions[at] == dispatcher.submissions[at],
        dispatcher.settled(handle, outcome).submissions[at].state.is_terminal() <==> (
        dispatcher.submissions[at].state.is_terminal() || (at == handle)),
{
}

/// One answer of the service: the handle it is for, and the outcome.
pub ghost struct Answer {
    pub handle: int,
    pub outcome: Result<(), TaskError>,
}

/// The dispatcher after `answers` arrived one after the other.
pub open spec fn answered(dispatcher: DispatcherView, answers: Seq<Answer>) -> DispatcherView
    decreases answers.len(),
{
    if answers.len() == 0 {
        dispatcher
    } else {
        answered(dispatcher, answers.drop_last()).settled(
            answers.last().handle,
            answers.last().outcome,
        )
    }
}

/// Answers may arrive in any order, and more than once: the dispatcher keeps
/// every mutation in its place, leaves a mutation that was terminal as it
/// was, and has every mutation that was answered in a terminal state.
pub proof fn lemma_answers_in_any_order(dispatcher: DispatcherView, answers: Seq<Answer>)
    ensures
        ({
            let after = answered(dispatcher, answers);
            &&& after.submissions.len() == dispatcher.submissions.len()
            &&& forall|i: int|
                0 <= i < after.submissions.len() ==> (#[trigger] after.submissions[i]).mutation
                    == dispatcher.submissions[i].mutation
            &&& forall|i: int|
                0 <= i < after.submissions.len() && dispatcher.submissions[i].state.is_terminal()
                    ==> #[trigger] after.submissions[i] == dispatcher.submissions[i]
            &&& forall|k: int|
                0 <= k < answers.len() && 0 <= (#[trigger] answers[k]).handle
                    < after.submissions.len()
                    ==> after.submissions[answers[k].handle].state.is_terminal()
        }),
    decreases answers.len(),
{
    if answers.len() > 0 {
        let front = answers.drop_last();
        lemma_answers_in_any_order(dispatcher, front);
        let before = answered(dispatcher, front);
        let after = answered(dispatcher, answers);
        assert forall|k: int|
            0 <= k < answers.len() && 0 <= (#[trigger] answers[k]).handle
                < after.submissions.len() implies after.submissions[answers[k].handle].state.is_terminal() by {
            if k < front.len() {
                assert(front[k] == answers[k]);
            }
        }
    }
}

/// Whether one of `answers` is for the mutation `handle`.
pub open spec fn is_answered(answers: Seq<Answer>, handle: int) -> bool {
    exists|k: int| 0 <= k < answers.len() && (#[trigger] answers[k]).handle == handle
}

/// Once every mutation has been answered, in whatever order, every mutation
/// is in a terminal state.
pub proof fn lemma_all_answered_is_all_settled(dispatcher: DispatcherView, answers: Seq<Answer>)
    requires
        forall|i: int| 0 <= i < dispatcher.submissions.len() ==> is_answered(answers, i),
    ensures
        answered(dispatcher, answers).all_settled(),
{
    lemma_answers_in_any_order(dispatcher, answers);
    let after = answered(dispatcher, answers);
    assert forall|i: int| 0 <= i < after.submissions.len() implies (
    #[trigger] after.submissions[i]).state.is_terminal() by {
        assert(is_answered(answers, i));
        let k = choose|k: int| 0 <= k < answers.len() && (#[trigger] answers[k]).handle == i;
        assert(after.submissions[answers[k].handle].state.is_terminal());
    }
}

/// Where every mutation has reached a terminal state, no pending entry is
/// left.
pub proof fn lemma_settled_leaves_no_pending(dispatcher: DispatcherView)
    requires
        dispatcher.all_settled(),
    ensures
        pending_titles(dispatcher.submissions) == Seq::<Seq<char>>::empty(),
{
    lemma_filter_none(dispatcher.submissions, |s: SubmissionView| s.is_pending_create());
}

/// Convergence: once every mutation has reached a terminal state, in
/// whatever order, one refetch that succeeds makes the displayed list equal
/// to the content of the store: one entry per stored task, in the store's
/// order, and nothing else.
pub proof fn lemma_convergence(model: ViewModelView, dispatcher: DispatcherView, ctx: ContextView)
    requires
        dispatcher.all_settled(),
        ctx.store.online,
    ensures
        model.observing(dispatcher).refreshed(ViewModelView::fetched(ctx)).reconciled(dispatcher)
            == listing(ctx.store.rows, ctx.identity.users).map_values(
            |todo: TodoView| EntryView::Task(todo),
        ),
        model.observing(dispatcher).refreshed(ViewModelView::fetched(ctx)).error.is_none(),
        model.is_stale(dispatcher) ==> model.synced(dispatcher, ctx) == model.observing(
            dispatcher,
        ).refreshed(ViewModelView::fetched(ctx)),
        !model.synced(dispatcher, ctx).is_stale(dispatcher),
{
    lemma_settled_leaves_no_pending(dispatcher);
    let after = model.observing(dispatcher).refreshed(ViewModelView::fetched(ctx));
    assert(after.reconciled(dispatcher) =~= listing(ctx.store.rows, ctx.identity.users).map_values(
        |todo: TodoView| EntryView::Task(todo),
    ));
}

/// A refetch is due exactly on a change of a gating counter: the terminal
/// transition of a create- or delete-mutation makes a view model that was
/// up to date stale, and that of a toggle-mutation does not, nor does any
/// submission or an answer that no pending mutation takes.
pub proof fn lemma_refetch_is_edge_triggered(
    model: ViewModelView,
    dispatcher: DispatcherView,
    handle: int,
    outcome: Result<(), TaskError>,
    mutation: MutationView,
)
    requires
        !model.is_stale(dispatcher),
    ensures
        model.is_stale(dispatcher.settled(handle, outcome)) <==> dispatcher.advance(
            handle,
            MutationKind::Create,
        ) + dispatcher.advance(handle, MutationKind::Delete) > 0,
        !model.is_stale(dispatcher.submitted(mutation)),
{
    lemma_settle_advances_version(dispatcher, handle, outcome, MutationKind::Create);
    lemma_settle_advances_version(dispatcher, handle, outcome, MutationKind::Delete);
    lemma_submit_keeps_versions(dispatcher, mutation, MutationKind::Create);
    lemma_submit_keeps_versions(dispatcher, mutation, MutationKind::Delete);
}

/// The displayed list is as long as the confirmed list and the pending
/// create-mutations together: each confirmed task and each pending create
/// is shown once.
pub proof fn lemma_visible_length(model: ViewModelView, dispatcher: DispatcherView)
    ensures
        model.reconciled(dispatcher).len() == model.todos.len() + dispatcher.submissions.filter(
            |s: SubmissionView| s.is_pending_create(),
        ).len(),
{
}

/// Whether `handle` names a pending create-mutation and no other
/// create-mutation is pending.
pub open spec fn only_pending_create(dispatcher: DispatcherView, handle: int) -> bool {
    &&& dispatcher.is_pending(handle)
    &&& dispatcher.submissions[handle].mutation is Create
    &&& forall|i: int|
        0 <= i < dispatcher.submissions.len() && i != handle ==> !(
        #[trigger] dispatcher.submissions[i]).is_pending_create()
}

/// No regression: while one create-mutation is pending the displayed list
/// is one longer than the confirmed list, its last entry being the pending
/// task; once the mutation has reached a terminal state and a refetch has
/// returned, the displayed list is the refetched list and nothing else, so
/// the created task is shown once.
pub proof fn lemma_no_regression(
    model: ViewModelView,
    dispatcher: DispatcherView,
    handle: int,
    outcome: Result<(), TaskError>,
    fetched: Seq<TodoView>,
)
    requires
        only_pending_create(dispatcher, handle),
    ensures
        model.reconciled(dispatcher).len() == model.todos.len() + 1,
        model.reconciled(dispatcher).last() == (EntryView::Pending {
            title: dispatcher.submissions[handle].mutation->title,
        }),
        model.refreshed(Ok(fetched)).reconciled(dispatcher.settled(handle, outcome))
            == fetched.map_values(|todo: TodoView| EntryView::Task(todo)),
{
    let keep = |s: SubmissionView| s.is_pending_create();
    let subs = dispatcher.submissions;
    let front = subs.take(handle);
    let back = subs.skip(handle + 1);
    assert(subs =~= front + seq![subs[handle]] + back);
    lemma_filter_none(front, keep);
    lemma_filter_none(back, keep);
    lemma_filter_all(seq![subs[handle]], keep);
    Seq::filter_distributes_over_add(front + seq![subs[handle]], back, keep);
    Seq::filter_distributes_over_add(front, seq![subs[handle]], keep);
    assert(subs.filter(keep) =~= seq![subs[handle]]);
    assert(pending_titles(subs) =~= seq![subs[handle].title()]);

    let after = dispatcher.settled(handle, outcome);
    lemma_filter_none(after.submissions, keep);
    assert(model.refreshed(Ok(fetched)).reconciled(after) =~= fetched.map_values(
        |todo: TodoView| EntryView::Task(todo),
    ));
}

} // verus!
