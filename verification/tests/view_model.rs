use task_sync::dispatcher::{Dispatcher, Handle};
use task_sync::error::TaskError;
use task_sync::identity::IdentityGateway;
use task_sync::mutation::{Mutation, MutationKind, MutationState};
use task_sync::service::{get_todos, Context};
use task_sync::session::{session_header, Header};
use task_sync::store::TaskStore;
use task_sync::task::{Todo, User};
use task_sync::view_model::{Entry, ListStatus, ViewModel};

fn todo(id: u32, title: &str, completed: bool) -> Todo {
    Todo { id, user: None, title: title.to_string(), created_at: "t".to_string(), completed }
}

fn pending(title: &str) -> Entry {
    Entry::Pending { title: title.to_string() }
}

fn empty_context() -> Context {
    Context::new(TaskStore::new(), IdentityGateway::new(vec![], None))
}

#[test]
fn new_view_model_is_loading_and_shows_nothing() {
    let model = ViewModel::new();
    let dispatcher = Dispatcher::new();
    assert_eq!(model.status(), ListStatus::Loading);
    assert_eq!(model.error(), None);
    assert_eq!(model.todos(), &Vec::<Todo>::new());
    assert_eq!(model.reconciled_view(&dispatcher), vec![]);
    assert_eq!(model.notices(&dispatcher), vec![]);
}

#[test]
fn refetch_is_due_first_and_then_only_on_a_change() {
    let mut model = ViewModel::new();
    let mut dispatcher = Dispatcher::new();
    assert!(model.observe(&dispatcher));
    assert!(!model.observe(&dispatcher));
    let create = dispatcher.submit_create("a".to_string());
    assert!(!model.observe(&dispatcher));
    assert!(dispatcher.settle(create, Ok(())));
    assert!(model.observe(&dispatcher));
    assert!(!model.observe(&dispatcher));
    let delete = dispatcher.submit_delete(1);
    assert!(dispatcher.settle(delete, Err(TaskError::StoreError)));
    assert!(model.observe(&dispatcher));
    assert!(!model.observe(&dispatcher));
}

#[test]
fn toggle_counter_does_not_gate_the_refetch() {
    let mut model = ViewModel::new();
    let mut dispatcher = Dispatcher::new();
    assert!(model.observe(&dispatcher));
    let toggle = dispatcher.submit_toggle(1, true);
    assert!(dispatcher.settle(toggle, Ok(())));
    assert_eq!(dispatcher.version(MutationKind::ToggleComplete), 1);
    assert!(!model.observe(&dispatcher));
}

#[test]
fn refresh_replaces_the_list_and_clears_the_error() {
    let mut model = ViewModel::new();
    model.refresh(Err(TaskError::StoreError));
    assert_eq!(model.status(), ListStatus::Loading);
    assert_eq!(model.error(), Some(TaskError::StoreError));
    model.refresh(Ok(vec![]));
    assert_eq!(model.status(), ListStatus::Empty);
    assert_eq!(model.error(), None);
    model.refresh(Ok(vec![todo(1, "a", false), todo(2, "b", true)]));
    assert_eq!(model.status(), ListStatus::Listed);
    assert_eq!(model.todos(), &vec![todo(1, "a", false), todo(2, "b", true)]);
}

#[test]
fn failed_refetch_keeps_the_last_good_list() {
    let mut model = ViewModel::new();
    let dispatcher = Dispatcher::new();
    model.refresh(Ok(vec![todo(1, "a", false)]));
    model.refresh(Err(TaskError::StoreError));
    assert_eq!(model.status(), ListStatus::Listed);
    assert_eq!(model.error(), Some(TaskError::StoreError));
    assert_eq!(model.reconciled_view(&dispatcher), vec![Entry::Task(todo(1, "a", false))]);
    assert_eq!(model.notices(&dispatcher), vec![TaskError::StoreError]);
    model.refresh(Ok(vec![todo(1, "a", false)]));
    assert_eq!(model.notices(&dispatcher), vec![]);
}

#[test]
fn pending_creates_follow_the_confirmed_tasks() {
    let mut model = ViewModel::new();
    let mut dispatcher = Dispatcher::new();
    model.refresh(Ok(vec![todo(1, "a", false), todo(2, "b", true)]));
    let first = dispatcher.submit_create("c".to_string());
    dispatcher.submit_delete(1);
    let second = dispatcher.submit_create("a".to_string());
    assert_eq!(
        model.reconciled_view(&dispatcher),
        vec![
            Entry::Task(todo(1, "a", false)),
            Entry::Task(todo(2, "b", true)),
            pending("c"),
            pending("a"),
        ]
    );
    assert!(dispatcher.settle(first, Ok(())));
    assert_eq!(
        model.reconciled_view(&dispatcher),
        vec![Entry::Task(todo(1, "a", false)), Entry::Task(todo(2, "b", true)), pending("a")]
    );
    assert!(dispatcher.settle(second, Err(TaskError::StoreError)));
    assert_eq!(
        model.reconciled_view(&dispatcher),
        vec![Entry::Task(todo(1, "a", false)), Entry::Task(todo(2, "b", true))]
    );
}

#[test]
fn visible_length_does_not_regress_while_a_create_is_pending() {
    let mut ctx = empty_context();
    let mut model = ViewModel::new();
    let mut dispatcher = Dispatcher::new();
    assert!(model.refetch_if_stale(&dispatcher, &ctx));
    assert_eq!(model.reconciled_view(&dispatcher).len(), 0);
    let create = dispatcher.submit_create("Buy milk".to_string());
    assert!(!model.refetch_if_stale(&dispatcher, &ctx));
    assert_eq!(model.reconciled_view(&dispatcher), vec![pending("Buy milk")]);
    assert!(dispatcher.run(create, &mut ctx, "t".to_string()));
    assert_eq!(model.reconciled_view(&dispatcher), vec![]);
    assert!(model.refetch_if_stale(&dispatcher, &ctx));
    assert_eq!(model.reconciled_view(&dispatcher), vec![Entry::Task(todo(1, "Buy milk", false))]);
    assert!(!model.refetch_if_stale(&dispatcher, &ctx));
}

#[test]
fn view_converges_to_the_store_after_out_of_order_completions() {
    let mut ctx = empty_context();
    let mut model = ViewModel::new();
    let mut dispatcher = Dispatcher::new();
    let handles = vec![
        dispatcher.submit_create("a".to_string()),
        dispatcher.submit_create("b".to_string()),
        dispatcher.submit_toggle(1, true),
        dispatcher.submit_delete(2),
        dispatcher.submit_create(String::new()),
        dispatcher.submit_toggle(9, true),
    ];
    for at in [3usize, 5, 1, 0, 4, 2] {
        assert!(dispatcher.run(handles[at], &mut ctx, format!("t{}", at)));
    }
    for handle in &handles {
        assert_ne!(dispatcher.state(*handle), Some(MutationState::Pending));
    }
    assert!(model.refetch_if_stale(&dispatcher, &ctx));
    let stored: Vec<Entry> = get_todos(&ctx).unwrap().into_iter().map(Entry::Task).collect();
    assert_eq!(model.reconciled_view(&dispatcher), stored);
    assert_eq!(
        stored,
        vec![
            Entry::Task(Todo {
                id: 1,
                user: None,
                title: "b".to_string(),
                created_at: "t1".to_string(),
                completed: true,
            }),
            Entry::Task(Todo {
                id: 2,
                user: None,
                title: "a".to_string(),
                created_at: "t0".to_string(),
                completed: false,
            }),
        ]
    );
    assert_eq!(
        model.notices(&dispatcher),
        vec![TaskError::ValidationError, TaskError::NotFound]
    );
}

#[test]
fn optimistic_toggle_flips_at_once_and_is_not_rolled_back() {
    let mut ctx = empty_context();
    let mut model = ViewModel::new();
    let mut dispatcher = Dispatcher::new();
    model.refresh(Ok(vec![todo(1, "a", false), todo(2, "b", false)]));
    assert!(model.observe(&dispatcher));
    let handle = model.submit_toggle(&mut dispatcher, 2, true);
    assert_eq!(handle, Handle(0));
    assert_eq!(
        dispatcher.mutation(handle),
        Some(Mutation::ToggleComplete { id: 2, completed: true })
    );
    assert_eq!(model.todos(), &vec![todo(1, "a", false), todo(2, "b", true)]);
    assert!(dispatcher.run(handle, &mut ctx, "t".to_string()));
    assert_eq!(dispatcher.state(handle), Some(MutationState::Failed(TaskError::NotFound)));
    assert!(!model.refetch_if_stale(&dispatcher, &ctx));
    assert_eq!(model.todos(), &vec![todo(1, "a", false), todo(2, "b", true)]);
    assert_eq!(model.notices(&dispatcher), vec![TaskError::NotFound]);
}

#[test]
fn toggle_of_an_unknown_id_changes_nothing() {
    let mut model = ViewModel::new();
    model.refresh(Ok(vec![todo(1, "a", false)]));
    model.toggle(5, true);
    assert_eq!(model.todos(), &vec![todo(1, "a", false)]);
    model.toggle(1, true);
    model.toggle(1, true);
    assert_eq!(model.todos(), &vec![todo(1, "a", true)]);
    model.toggle(1, false);
    assert_eq!(model.todos(), &vec![todo(1, "a", false)]);
}

#[test]
fn notices_put_the_refetch_error_first() {
    let mut model = ViewModel::new();
    let mut dispatcher = Dispatcher::new();
    let delete = dispatcher.submit_delete(1);
    assert!(dispatcher.settle(delete, Err(TaskError::AuthUnavailable)));
    model.refresh(Err(TaskError::StoreError));
    assert_eq!(
        model.notices(&dispatcher),
        vec![TaskError::StoreError, TaskError::AuthUnavailable]
    );
}

#[test]
fn refetch_from_an_unreachable_store_is_an_error_beside_the_list() {
    let mut ctx = empty_context();
    let mut model = ViewModel::new();
    let mut dispatcher = Dispatcher::new();
    let create = dispatcher.submit_create("a".to_string());
    assert!(dispatcher.run(create, &mut ctx, "t".to_string()));
    assert!(model.refetch_if_stale(&dispatcher, &ctx));
    ctx.store.set_online(false);
    let delete = dispatcher.submit_delete(1);
    assert!(dispatcher.run(delete, &mut ctx, "t".to_string()));
    assert!(model.refetch_if_stale(&dispatcher, &ctx));
    assert_eq!(model.error(), Some(TaskError::StoreError));
    assert_eq!(model.reconciled_view(&dispatcher), vec![Entry::Task(todo(1, "a", false))]);
    assert_eq!(model.notices(&dispatcher), vec![TaskError::StoreError, TaskError::StoreError]);
}

#[test]
fn header_follows_the_session() {
    assert_eq!(session_header(None), Header::Loading);
    assert_eq!(session_header(Some(Ok(None))), Header::SignedOut { error: None });
    assert_eq!(
        session_header(Some(Err(TaskError::AuthUnavailable))),
        Header::SignedOut { error: Some(TaskError::AuthUnavailable) }
    );
    let user = User { id: 4, username: "erin".to_string() };
    assert_eq!(
        session_header(Some(Ok(Some(user)))),
        Header::SignedIn { username: "erin".to_string() }
    );
}
