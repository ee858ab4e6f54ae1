//! The mutation dispatcher: it takes in mutations, follows each from
//! `Pending` to its one terminal state, and counts terminal transitions in a
//! version counter per kind of mutation.

use crate::error::TaskError;
use crate::mutation::{Mutation, MutationKind, MutationState, MutationView};
use crate::service::{perform, Context};
use crate::task::views;
use vstd::prelude::*;

verus! {

/// What a caller holds of a submitted mutation: its place in the order of
/// submission.
#[derive(Clone, Copy, Debug, PartialEq, Eq, Structural)]
pub struct Handle(pub usize);

/// The mathematical value of a tracked mutation.
pub ghost struct SubmissionView {
    pub mutation: MutationView,
    pub state: MutationState,
}

impl SubmissionView {
    /// Whether this is a mutation of kind `kind` that has reached a terminal
    /// state.
    pub open spec fn is_settled(self, kind: MutationKind) -> bool {
        self.mutation.kind() == kind && self.state.is_terminal()
    }

    /// Whether this is a create-mutation that is still pending.
    pub open spec fn is_pending_create(self) -> bool {
        self.mutation is Create && self.state == MutationState::Pending
    }

    /// The title that a create-mutation asks for.
    pub open spec fn title(self) -> Seq<char> {
        self.mutation->title
    }

    /// Whether the mutation failed.
    pub open spec fn is_failed(self) -> bool {
        self.state is Failed
    }

    /// The reason a failed mutation failed for.
    pub open spec fn reason(self) -> TaskError {
        self.state->Failed_0
    }
}

/// The number of mutations of kind `kind` among `submissions` that have
/// reached a terminal state.
pub open spec fn settled_count(submissions: Seq<SubmissionView>, kind: MutationKind) -> nat {
    submissions.filter(|s: SubmissionView| s.is_settled(kind)).len()
}

/// The titles of the create-mutations among `submissions` that are still
/// pending, in the order of submission.
pub open spec fn pending_titles(submissions: Seq<SubmissionView>) -> Seq<Seq<char>> {
    submissions.filter(|s: SubmissionView| s.is_pending_create()).map_values(
        |s: SubmissionView| s.title(),
    )
}

/// The reasons of the failed mutations among `submissions`, in the order of
/// submission.
pub open spec fn failure_reasons(submissions: Seq<SubmissionView>) -> Seq<TaskError> {
    submissions.filter(|s: SubmissionView| s.is_failed()).map_values(
        |s: SubmissionView| s.reason(),
    )
}

/// The mathematical value of a [`Dispatcher`]: the tracked mutations in the
/// order of submission. The version counters are a function of them.
pub ghost struct DispatcherView {
    pub submissions: Seq<SubmissionView>,
}

impl DispatcherView {
    /// The version counter of `kind`: the number of terminal transitions of
    /// mutations of that kind so far.
    pub open spec fn version(self, kind: MutationKind) -> nat {
        settled_count(self.submissions, kind)
    }

    /// Whether `handle` names a mutation that is still pending.
    pub open spec fn is_pending(self, handle: int) -> bool {
        0 <= handle < self.submissions.len() && self.submissions[handle].state
            == MutationState::Pending
    }

    /// By how much an answer to `handle` advances the version counter of
    /// `kind`: by one where the handle names a pending mutation of that kind,
    /// and by nothing otherwise.
    pub open spec fn advance(self, handle: int, kind: MutationKind) -> nat {
        if self.is_pending(handle) && self.submissions[handle].mutation.kind() == kind {
            1
        } else {
            0
        }
    }

    /// Whether every tracked mutation has reached a terminal state.
    pub open spec fn all_settled(self) -> bool {
        forall|i: int| 0 <= i < self.submissions.len() ==> (#[trigger] self.submissions[i]).state.is_terminal()
    }

    /// The dispatcher after `mutation` was submitted: it is tracked last and
    /// pending.
    pub open spec fn submitted(self, mutation: MutationView) -> DispatcherView {
        DispatcherView {
            submissions: self.submissions.push(
                SubmissionView { mutation, state: MutationState::Pending },
            ),
        }
    }

    /// The dispatcher after the service answered the mutation `handle` with
    /// `outcome`. Only a pending mutation takes the answer; for any other
    /// handle nothing changes.
    pub open spec fn settled(self, handle: int, outcome: Result<(), TaskError>) -> DispatcherView {
        if self.is_pending(handle) {
            DispatcherView {
                submissions: self.submissions.update(
                    handle,
                    SubmissionView {
                        state: MutationState::of_outcome(outcome),
                        ..self.submissions[handle]
                    },
                ),
            }
        } else {
            self
        }
    }
}

/// Filtering a sequence that ends in `last`: the last item is kept or
/// dropped, the rest is filtered as before.
pub proof fn lemma_filter_push<A>(items: Seq<A>, last: A, keep: spec_fn(A) -> bool)
    ensures
        items.push(last).filter(keep) == if keep(last) {
            items.filter(keep).push(last)
        } else {
            items.filter(keep)
        },
{
    reveal(Seq::filter);
    assert(items.push(last).drop_last() =~= items);
}

/// Replacing one item of a sequence changes the number of items that a
/// predicate keeps by what the two items contribute.
pub proof fn lemma_filter_len_update<A>(items: Seq<A>, at: int, item: A, keep: spec_fn(A) -> bool)
    requires
        0 <= at < items.len(),
    ensures
        items.update(at, item).filter(keep).len() + (if keep(items[at]) {
            1int
        } else {
            0int
        }) == items.filter(keep).len() + (if keep(item) {
            1int
        } else {
            0int
        }),
    decreases items.len(),
{
    let front = items.drop_last();
    assert(front.push(items.last()) =~= items);
    lemma_filter_push(front, items.last(), keep);
    if at == items.len() - 1 {
        assert(items.update(at, item) =~= front.push(item));
        lemma_filter_push(front, item, keep);
    } else {
        lemma_filter_len_update(front, at, item, keep);
        assert(items.update(at, item) =~= front.update(at, item).push(items.last()));
        lemma_filter_push(front.update(at, item), items.last(), keep);
    }
}

/// Submitting a mutation leaves every version counter as it is.
pub proof fn lemma_submit_keeps_versions(
    dispatcher: DispatcherView,
    mutation: MutationView,
    kind: MutationKind,
)
    ensures
        dispatcher.submitted(mutation).version(kind) == dispatcher.version(kind),
{
    lemma_filter_push(
        dispatcher.submissions,
        SubmissionView { mutation, state: MutationState::Pending },
        |s: SubmissionView| s.is_settled(kind),
    );
}

/// A terminal transition advances the version counter of the mutation's kind
/// by exactly one and leaves the other counters as they are; an answer that
/// no pending mutation takes advances none.
pub proof fn lemma_settle_advances_version(
    dispatcher: DispatcherView,
    handle: int,
    outcome: Result<(), TaskError>,
    kind: MutationKind,
)
    ensures
        dispatcher.settled(handle, outcome).version(kind) == dispatcher.version(kind)
            + dispatcher.advance(handle, kind),
{
    if dispatcher.is_pending(handle) {
        let before = dispatcher.submissions[handle];
        let after = SubmissionView { state: MutationState::of_outcome(outcome), ..before };
        lemma_filter_len_update(
            dispatcher.submissions,
            handle,
            after,
            |s: SubmissionView| s.is_settled(kind),
        );
    }
}

/// The in-memory mutation dispatcher.
pub struct Dispatcher {
    mutations: Vec<Mutation>,
    states: Vec<MutationState>,
    create_version: u64,
    toggle_version: u64,
    delete_version: u64,
}

impl View for Dispatcher {
    type V = DispatcherView;

    closed spec fn view(&self) -> DispatcherView {
        DispatcherView {
            submissions: Seq::new(
                self.mutations@.len(),
                |i: int| SubmissionView { mutation: self.mutations@[i]@, state: self.states@[i] },
            ),
        }
    }
}

impl Dispatcher {
    /// The validity that every constructor establishes and every method
    /// preserves: each counter holds the number of terminal transitions of
    /// its kind.
    pub closed spec fn wf(&self) -> bool {
        &&& self.mutations@.len() == self.states@.len()
        &&& self.create_version == self@.version(MutationKind::Create)
        &&& self.toggle_version == self@.version(MutationKind::ToggleComplete)
        &&& self.delete_version == self@.version(MutationKind::Delete)
    }

    /// A dispatcher that tracks nothing; every version counter is 0.
    pub fn new() -> (dispatcher: Dispatcher)
        ensures
            dispatcher.wf(),
            dispatcher@.submissions == Seq::<SubmissionView>::empty(),
            forall|kind: MutationKind| dispatcher@.version(kind) == 0,
    {
        let dispatcher = Dispatcher {
            mutations: Vec::new(),
            states: Vec::new(),
            create_version: 0,
            toggle_version: 0,
            delete_version: 0,
        };
        proof {
            reveal(Seq::filter);
            assert(dispatcher@.submissions =~= Seq::<SubmissionView>::empty());
        }
        dispatcher
    }

    /// The number of mutations submitted so far.
    pub fn len(&self) -> (count: usize)
        requires
            self.wf(),
        ensures
            count == self@.submissions.len(),
    {
        self.mutations.len()
    }

    /// Takes in a mutation and returns at once. The mutation is tracked
    /// after all earlier ones and starts out pending; no counter moves.
    pub fn submit(&mut self, mutation: Mutation) -> (handle: Handle)
        requires
            old(self).wf(),
        ensures
            final(self).wf(),
            handle.0 == old(self)@.submissions.len(),
            final(self)@ == old(self)@.submitted(mutation@),
            forall|kind: MutationKind|
                #![trigger final(self)@.version(kind)]
                final(self)@.version(kind) == old(self)@.version(kind),
    {
        let handle = Handle(self.mutations.len());
        self.mutations.push(mutation);
        self.states.push(MutationState::Pending);
        proof {
            assert(self@.submissions =~= old(self)@.submitted(mutation@).submissions);
            assert forall|kind: MutationKind| self@.version(kind) == old(self)@.version(kind) by {
                lemma_submit_keeps_versions(old(self)@, mutation@, kind);
            }
        }
        handle
    }

    /// Submits the creation of a task titled `title`.
    pub fn submit_create(&mut self, title: String) -> (handle: Handle)
        requires
            old(self).wf(),
        ensures
            final(self).wf(),
            handle.0 == old(self)@.submissions.len(),
            final(self)@ == old(self)@.submitted(MutationView::Create { title: title@ }),
            forall|kind: MutationKind|
                #![trigger final(self)@.version(kind)]
                final(self)@.version(kind) == old(self)@.version(kind),
    {
        self.submit(Mutation::Create { title })
    }

    /// Submits setting the completion flag of task `id`.
    pub fn submit_toggle(&mut self, id: u32, completed: bool) -> (handle: Handle)
        requires
            old(self).wf(),
        ensures
            final(self).wf(),
            handle.0 == old(self)@.submissions.len(),
            final(self)@ == old(self)@.submitted(
                MutationView::ToggleComplete { id: id as int, completed },
            ),
            forall|kind: MutationKind|
                #![trigger final(self)@.version(kind)]
                final(self)@.version(kind) == old(self)@.version(kind),
    {
        self.submit(Mutation::ToggleComplete { id, completed })
    }

    /// Submits the deletion of task `id`.
    pub fn submit_delete(&mut self, id: u16) -> (handle: Handle)
        requires
            old(self).wf(),
        ensures
            final(self).wf(),
            handle.0 == old(self)@.submissions.len(),
            final(self)@ == old(self)@.submitted(MutationView::Delete { id: id as int }),
            forall|kind: MutationKind|
                #![trigger final(self)@.version(kind)]
                final(self)@.version(kind) == old(self)@.version(kind),
    {
        self.submit(Mutation::Delete { id })
    }

    /// The state of the mutation `handle`, or none where the handle names no
    /// mutation of this dispatcher.
    pub fn state(&self, handle: Handle) -> (state: Option<MutationState>)
        requires
            self.wf(),
        ensures
            state == if handle.0 < self@.submissions.len() {
                Some(self@.submissions[handle.0 as int].state)
            } else {
                None
            },
    {
        if handle.0 < self.states.len() {
            Some(self.states[handle.0])
        } else {
            None
        }
    }

    /// The mutation `handle`, or none where the handle names no mutation of
    /// this dispatcher.
    pub fn mutation(&self, handle: Handle) -> (mutation: Option<Mutation>)
        requires
            self.wf(),
        ensures
            match mutation {
                Some(mutation) => handle.0 < self@.submissions.len() && mutation@
                    == self@.submissions[handle.0 as int].mutation,
                None => handle.0 >= self@.submissions.len(),
            },
    {
        if handle.0 < self.mutations.len() {
            Some(self.mutations[handle.0].clone())
        } else {
            None
        }
    }

    /// The version counter of `kind`.
    pub fn version(&self, kind: MutationKind) -> (version: u64)
        requires
            self.wf(),
        ensures
            version == self@.version(kind),
    {
        match kind {
            MutationKind::Create => self.create_version,
            MutationKind::ToggleComplete => self.toggle_version,
            MutationKind::Delete => self.delete_version,
        }
    }

    /// Records the service's answer to the mutation `handle`: success
    /// confirms it, an error fails it with that error as the reason. This is
    /// the mutation's one terminal transition, and it advances the version
    /// counter of the mutation's kind by one.
    ///
    /// Returns whether the answer was taken. It is not, and nothing changes,
    /// where the handle names no mutation or the mutation has already
    /// reached a terminal state.
    pub fn settle(&mut self, handle: Handle, outcome: Result<(), TaskError>) -> (taken: bool)
        requires
            old(self).wf(),
        ensures
            final(self).wf(),
            taken == old(self)@.is_pending(handle.0 as int),
            final(self)@ == old(self)@.settled(handle.0 as int, outcome),
            forall|kind: MutationKind|
                #![trigger final(self)@.version(kind)]
                final(self)@.version(kind) == old(self)@.version(kind) + old(self)@.advance(
                    handle.0 as int,
                    kind,
                ),
    {
        let ghost before = old(self)@;
        proof {
            assert forall|kind: MutationKind|
                before.settled(handle.0 as int, outcome).version(kind) == before.version(kind)
                    + before.advance(handle.0 as int, kind) by {
                lemma_settle_advances_version(before, handle.0 as int, outcome, kind);
            }
        }
        let at = handle.0;
        if at >= self.states.len() {
            return false;
        }
        match self.states[at] {
            MutationState::Pending => {},
            _ => {
                return false;
            },
        }
        let kind = self.mutations[at].kind();
        self.states.set(at, MutationState::from_outcome(outcome));
        proof {
            assert(self@.submissions =~= old(self)@.settled(at as int, outcome).submissions);
            lemma_settle_advances_version(before, at as int, outcome, kind);
            self@.submissions.lemma_filter_len(|s: SubmissionView| s.is_settled(kind));
        }
        match kind {
            MutationKind::Create => {
                self.create_version = self.create_version + 1;
            },
            MutationKind::ToggleComplete => {
                self.toggle_version = self.toggle_version + 1;
            },
            MutationKind::Delete => {
                self.delete_version = self.delete_version + 1;
            },
        }
        true
    }

    /// Carries the pending mutation `handle` out against the service and
    /// records the answer. `now` stamps a task that the mutation creates.
    ///
    /// Returns whether the mutation was run. It is not, and nothing changes,
    /// where the handle names no mutation or the mutation has already
    /// reached a terminal state.
    pub fn run(&mut self, handle: Handle, ctx: &mut Context, now: String) -> (taken: bool)
        requires
            old(self).wf(),
            old(ctx).wf(),
        ensures
            final(self).wf(),
            final(ctx).wf(),
            taken == old(self)@.is_pending(handle.0 as int),
            taken ==> {
                let mutation = old(self)@.submissions[handle.0 as int].mutation;
                &&& final(ctx)@ == old(ctx)@.applied(mutation, now@)
                &&& final(self)@ == old(self)@.settled(
                    handle.0 as int,
                    old(ctx)@.answer(mutation),
                )
            },
            !taken ==> final(ctx)@ == old(ctx)@ && final(self)@ == old(self)@,
            forall|kind: MutationKind|
                #![trigger final(self)@.version(kind)]
                final(self)@.version(kind) == old(self)@.version(kind) + old(self)@.advance(
                    handle.0 as int,
                    kind,
                ),
    {
        let at = handle.0;
        if at >= self.states.len() {
            return false;
        }
        match self.states[at] {
            MutationState::Pending => {},
            _ => {
                return false;
            },
        }
        let outcome = perform(ctx, &self.mutations[at], now);
        self.settle(handle, outcome)
    }

    /// The titles of the create-mutations that are still pending, in the
    /// order of submission.
    pub fn pending_creates(&self) -> (titles: Vec<String>)
        requires
            self.wf(),
        ensures
            views(titles@) == pending_titles(self@.submissions),
    {
        let mut titles: Vec<String> = Vec::new();
        let mut at: usize = 0;
        proof {
            reveal(Seq::filter);
            assert(self@.submissions.take(0) =~= Seq::<SubmissionView>::empty());
            assert(views(titles@) =~= pending_titles(self@.submissions.take(0)));
        }
        while at < self.mutations.len()
            invariant
                self.wf(),
                at <= self.mutations.len(),
                views(titles@) == pending_titles(self@.submissions.take(at as int)),
            decreases self.mutations.len() - at,
        {
            let ghost before = titles@;
            let ghost keep = |s: SubmissionView| s.is_pending_create();
            proof {
                assert(self@.submissions.take(at + 1) =~= self@.submissions.take(at as int).push(
                    self@.submissions[at as int],
                ));
                lemma_filter_push(
                    self@.submissions.take(at as int),
                    self@.submissions[at as int],
                    keep,
                );
            }
            match self.states[at] {
                MutationState::Pending => {
                    match &self.mutations[at] {
                        Mutation::Create { title } => {
                            titles.push(title.clone());
                            assert(views(titles@) =~= views(before).push(
                                title@,
                            ));
                            assert(views(titles@) =~= pending_titles(
                                self@.submissions.take(at + 1),
                            ));
                        },
                        _ => {},
                    }
                },
                _ => {},
            }
            at += 1;
        }
        assert(self@.submissions.take(at as int) =~= self@.submissions);
        titles
    }

    /// The reasons of the mutations that failed, in the order of submission.
    pub fn failures(&self) -> (reasons: Vec<TaskError>)
        requires
            self.wf(),
        ensures
            reasons@ == failure_reasons(self@.submissions),
    {
        let mut reasons: Vec<TaskError> = Vec::new();
        let mut at: usize = 0;
        proof {
            reveal(Seq::filter);
            assert(self@.submissions.take(0) =~= Seq::<SubmissionView>::empty());
            assert(reasons@ =~= failure_reasons(self@.submissions.take(0)));
        }
        while at < self.states.len()
            invariant
                self.wf(),
                at <= self.states.len(),
                reasons@ == failure_reasons(self@.submissions.take(at as int)),
            decreases self.states.len() - at,
        {
            let ghost keep = |s: SubmissionView| s.is_failed();
            proof {
                assert(self@.submissions.take(at + 1) =~= self@.submissions.take(at as int).push(
                    self@.submissions[at as int],
                ));
                lemma_filter_push(
                    self@.submissions.take(at as int),
                    self@.submissions[at as int],
                    keep,
                );
            }
            match self.states[at] {
                MutationState::Failed(reason) => {
                    reasons.push(reason);
                    assert(reasons@ =~= failure_reasons(self@.submissions.take(at + 1)));
                },
                _ => {},
            }
            at += 1;
        }
        assert(self@.submissions.take(at as int) =~= self@.submissions);
        reasons
    }
}

} // verus!
