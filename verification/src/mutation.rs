//! Mutations: what a client asks for, and how far the request has come.

use crate::error::TaskError;
use vstd::prelude::*;

verus! {

/// The three kinds of mutation. Each kind has a version counter of its own.
#[derive(Clone, Copy, Debug, PartialEq, Eq, Structural)]
pub enum MutationKind {
    Create,
    ToggleComplete,
    Delete,
}

/// A request to change the task list.
#[allow(inconsistent_fields)]
#[derive(Debug, PartialEq, Eq)]
pub enum Mutation {
    /// Create a task with this title.
    Create { title: String },
    /// Set the completion flag of task `id`.
    ToggleComplete { id: u32, completed: bool },
    /// Delete task `id`.
    Delete { id: u16 },
}

/// The mathematical value of a [`Mutation`].
pub ghost enum MutationView {
    Create { title: Seq<char> },
    ToggleComplete { id: int, completed: bool },
    Delete { id: int },
}

impl MutationView {
    /// The kind of the mutation.
    pub open spec fn kind(self) -> MutationKind {
        match self {
            MutationView::Create { .. } => MutationKind::Create,
            MutationView::ToggleComplete { .. } => MutationKind::ToggleComplete,
            MutationView::Delete { .. } => MutationKind::Delete,
        }
    }
}

impl View for Mutation {
    type V = MutationView;

    open spec fn view(&self) -> MutationView {
        match self {
            Mutation::Create { title } => MutationView::Create { title: title@ },
            Mutation::ToggleComplete { id, completed } => MutationView::ToggleComplete {
                id: *id as int,
                completed: *completed,
            },
            Mutation::Delete { id } => MutationView::Delete { id: *id as int },
        }
    }
}

impl Clone for Mutation {
    fn clone(&self) -> (copy: Self)
        ensures
            copy == *self,
    {
        match self {
            Mutation::Create { title } => Mutation::Create { title: title.clone() },
            Mutation::ToggleComplete { id, completed } => Mutation::ToggleComplete {
                id: *id,
                completed: *completed,
            },
            Mutation::Delete { id } => Mutation::Delete { id: *id },
        }
    }
}

impl Mutation {
    /// The kind of the mutation.
    pub fn kind(&self) -> (kind: MutationKind)
        ensures
            kind == self@.kind(),
    {
        match self {
            Mutation::Create { .. } => MutationKind::Create,
            Mutation::ToggleComplete { .. } => MutationKind::ToggleComplete,
            Mutation::Delete { .. } => MutationKind::Delete,
        }
    }
}

/// How far a submitted mutation has come. `Confirmed` and `Failed` are
/// terminal: a mutation that has reached one of them never changes again.
#[derive(Clone, Copy, Debug, PartialEq, Eq, Structural)]
pub enum MutationState {
    /// Submitted; the service has not answered yet.
    Pending,
    /// The service carried the mutation out.
    Confirmed,
    /// The service refused the mutation, for this reason.
    Failed(TaskError),
}

impl MutationState {
    /// Whether the state is terminal.
    pub open spec fn is_terminal(self) -> bool {
        self != MutationState::Pending
    }

    /// The terminal state that the service's answer leads to.
    pub open spec fn of_outcome(outcome: Result<(), TaskError>) -> MutationState {
        match outcome {
            Ok(()) => MutationState::Confirmed,
            Err(reason) => MutationState::Failed(reason),
        }
    }

    /// Computes the terminal state that the service's answer leads to.
    pub fn from_outcome(outcome: Result<(), TaskError>) -> (state: MutationState)
        ensures
            state == Self::of_outcome(outcome),
            state.is_terminal(),
    {
        match outcome {
            Ok(()) => MutationState::Confirmed,
            Err(reason) => MutationState::Failed(reason),
        }
    }
}

} // verus!
