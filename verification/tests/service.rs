use task_sync::error::TaskError;
use task_sync::identity::IdentityGateway;
use task_sync::mutation::Mutation;
use task_sync::service::{
    add_todo, auth, delete_todo, get_todos, perform, pool, settle_update, update_todo,
    validate_title, Context, WritePolicy,
};
use task_sync::store::TaskStore;
use task_sync::task::{owner_reference, SqlTodo, Todo, User, ANONYMOUS_OWNER};

fn carol() -> User {
    User { id: 7, username: "carol".to_string() }
}

fn dave() -> User {
    User { id: 9, username: "dave".to_string() }
}

fn context_for(current: Option<User>) -> Context {
    Context::new(TaskStore::new(), IdentityGateway::new(vec![carol(), dave()], current))
}

#[test]
fn empty_title_is_a_validation_error() {
    let mut ctx = context_for(Some(carol()));
    assert_eq!(add_todo(&mut ctx, String::new(), "t".to_string()), Err(TaskError::ValidationError));
    assert_eq!(get_todos(&ctx).unwrap(), vec![]);
    assert_eq!(validate_title(&String::new()), Err(TaskError::ValidationError));
    assert_eq!(validate_title(&" ".to_string()), Ok(()));
    assert_eq!(validate_title(&"x".to_string()), Ok(()));
}

#[test]
fn validation_comes_before_the_collaborators() {
    let mut ctx = context_for(None);
    ctx.identity.set_reachable(false);
    ctx.store.set_online(false);
    assert_eq!(add_todo(&mut ctx, String::new(), "t".to_string()), Err(TaskError::ValidationError));
    assert_eq!(add_todo(&mut ctx, "x".to_string(), "t".to_string()), Err(TaskError::AuthUnavailable));
    ctx.identity.set_reachable(true);
    assert_eq!(add_todo(&mut ctx, "x".to_string(), "t".to_string()), Err(TaskError::StoreError));
    ctx.store.set_online(true);
    assert_eq!(get_todos(&ctx).unwrap(), vec![]);
    assert_eq!(add_todo(&mut ctx, "x".to_string(), "t".to_string()), Ok(()));
    assert_eq!(get_todos(&ctx).unwrap().len(), 1);
}

#[test]
fn create_fails_when_the_identity_gateway_is_unreachable() {
    let mut ctx = context_for(Some(carol()));
    ctx.identity.set_reachable(false);
    assert_eq!(
        add_todo(&mut ctx, "Buy milk".to_string(), "t".to_string()),
        Err(TaskError::AuthUnavailable)
    );
    assert_eq!(get_todos(&ctx).unwrap(), vec![]);
}

#[test]
fn every_operation_fails_when_the_store_is_unreachable() {
    let mut ctx = context_for(None);
    assert_eq!(add_todo(&mut ctx, "a".to_string(), "t".to_string()), Ok(()));
    ctx.store.set_online(false);
    assert!(!ctx.store.is_online());
    assert_eq!(get_todos(&ctx), Err(TaskError::StoreError));
    assert_eq!(add_todo(&mut ctx, "b".to_string(), "t".to_string()), Err(TaskError::StoreError));
    assert_eq!(update_todo(&mut ctx, 1, true), Err(TaskError::StoreError));
    assert_eq!(delete_todo(&mut ctx, 1), Err(TaskError::StoreError));
    ctx.store.set_online(true);
    let todos = get_todos(&ctx).unwrap();
    assert_eq!(todos.len(), 1);
    assert_eq!(todos[0].title, "a");
    assert!(!todos[0].completed);
}

#[test]
fn listing_does_not_need_the_session() {
    let mut ctx = context_for(Some(carol()));
    assert_eq!(add_todo(&mut ctx, "a".to_string(), "t".to_string()), Ok(()));
    ctx.identity.set_reachable(false);
    let todos = get_todos(&ctx).unwrap();
    assert_eq!(todos[0].user, Some(carol()));
}

#[test]
fn unknown_owner_reference_reads_as_no_owner() {
    let mut ctx = context_for(None);
    assert_eq!(ctx.store.insert("orphan".to_string(), 1234, "t".to_string()), Ok(1));
    assert_eq!(ctx.store.insert("dave's".to_string(), 9, "t".to_string()), Ok(2));
    let todos = get_todos(&ctx).unwrap();
    assert_eq!(todos[0].user, None);
    assert_eq!(todos[0].owner_name(), "Guest");
    assert_eq!(todos[1].user, Some(dave()));
}

#[test]
fn any_caller_may_toggle_and_delete_any_task() {
    let mut ctx = context_for(Some(carol()));
    assert_eq!(ctx.policy, WritePolicy::AnyCaller);
    assert_eq!(add_todo(&mut ctx, "carol's".to_string(), "t".to_string()), Ok(()));
    ctx.identity.set_current(Some(dave()));
    assert_eq!(update_todo(&mut ctx, 1, true), Ok(()));
    assert!(get_todos(&ctx).unwrap()[0].completed);
    ctx.identity.set_current(None);
    ctx.identity.set_reachable(false);
    assert_eq!(update_todo(&mut ctx, 1, false), Ok(()));
    assert!(!get_todos(&ctx).unwrap()[0].completed);
    assert_eq!(delete_todo(&mut ctx, 1), Ok(()));
    assert_eq!(get_todos(&ctx).unwrap(), vec![]);
}

#[test]
fn owner_only_hides_the_tasks_of_others() {
    let mut ctx = context_for(Some(carol()));
    ctx.policy = WritePolicy::OwnerOnly;
    assert_eq!(add_todo(&mut ctx, "carol's".to_string(), "t".to_string()), Ok(()));
    ctx.identity.set_current(Some(dave()));
    assert_eq!(update_todo(&mut ctx, 1, true), Err(TaskError::NotFound));
    assert_eq!(delete_todo(&mut ctx, 1), Ok(()));
    let todos = get_todos(&ctx).unwrap();
    assert_eq!(todos.len(), 1);
    assert!(!todos[0].completed);
    ctx.identity.set_current(Some(carol()));
    assert_eq!(update_todo(&mut ctx, 1, true), Ok(()));
    assert!(get_todos(&ctx).unwrap()[0].completed);
    assert_eq!(update_todo(&mut ctx, 2, true), Err(TaskError::NotFound));
    assert_eq!(delete_todo(&mut ctx, 1), Ok(()));
    assert_eq!(get_todos(&ctx).unwrap(), vec![]);
}

#[test]
fn owner_only_needs_the_identity_gateway() {
    let mut ctx = context_for(None);
    ctx.policy = WritePolicy::OwnerOnly;
    assert_eq!(add_todo(&mut ctx, "anonymous".to_string(), "t".to_string()), Ok(()));
    assert_eq!(update_todo(&mut ctx, 1, true), Ok(()));
    ctx.identity.set_reachable(false);
    assert_eq!(update_todo(&mut ctx, 1, false), Err(TaskError::AuthUnavailable));
    assert_eq!(delete_todo(&mut ctx, 1), Err(TaskError::AuthUnavailable));
    ctx.store.set_online(false);
    assert_eq!(delete_todo(&mut ctx, 1), Err(TaskError::AuthUnavailable));
    ctx.identity.set_reachable(true);
    assert_eq!(delete_todo(&mut ctx, 1), Err(TaskError::StoreError));
    ctx.store.set_online(true);
    assert!(get_todos(&ctx).unwrap()[0].completed);
}

#[test]
fn pool_and_auth_give_the_collaborators_or_say_which_is_missing() {
    let mut ctx = context_for(Some(carol()));
    assert_eq!(pool(&ctx).unwrap().select_all(), Ok(vec![]));
    assert_eq!(auth(&ctx).unwrap().current_identity(), Ok(Some(carol())));
    assert!(auth(&ctx).unwrap().is_reachable());
    ctx.store.set_online(false);
    ctx.identity.set_reachable(false);
    assert_eq!(pool(&ctx).err(), Some(TaskError::StoreError));
    assert_eq!(auth(&ctx).err(), Some(TaskError::AuthUnavailable));
}

#[test]
fn settle_update_reads_the_affected_count() {
    assert_eq!(settle_update(0), Err(TaskError::NotFound));
    assert_eq!(settle_update(1), Ok(()));
    assert_eq!(settle_update(2), Ok(()));
}

#[test]
fn owner_reference_is_the_id_or_the_anonymous_owner() {
    assert_eq!(ANONYMOUS_OWNER, -1);
    assert_eq!(owner_reference(&None), -1);
    assert_eq!(owner_reference(&Some(carol())), 7);
    assert_eq!(User::default(), User { id: -1, username: "Guest".to_string() });
}

#[test]
fn into_todo_keeps_the_row_and_takes_the_owner() {
    let row = SqlTodo {
        id: 3,
        user_id: 7,
        title: "Ship release".to_string(),
        created_at: "2024-03-04 05:06:07".to_string(),
        completed: true,
    };
    let copy = row.clone();
    assert_eq!(copy, row);
    assert_eq!(
        row.into_todo(Some(carol())),
        Todo {
            id: 3,
            user: Some(carol()),
            title: "Ship release".to_string(),
            created_at: "2024-03-04 05:06:07".to_string(),
            completed: true,
        }
    );
    let todo = copy.into_todo(None);
    assert_eq!(todo.user, None);
    assert_eq!(todo.clone(), todo);
}

#[test]
fn perform_carries_out_each_kind() {
    let mut ctx = context_for(Some(dave()));
    let create = Mutation::Create { title: "a".to_string() };
    assert_eq!(perform(&mut ctx, &create, "now".to_string()), Ok(()));
    let todos = get_todos(&ctx).unwrap();
    assert_eq!(todos[0].created_at, "now");
    assert_eq!(todos[0].user, Some(dave()));
    let toggle = Mutation::ToggleComplete { id: 1, completed: true };
    assert_eq!(perform(&mut ctx, &toggle, "later".to_string()), Ok(()));
    assert!(get_todos(&ctx).unwrap()[0].completed);
    assert_eq!(get_todos(&ctx).unwrap()[0].created_at, "now");
    let missing = Mutation::ToggleComplete { id: 5, completed: true };
    assert_eq!(perform(&mut ctx, &missing, "later".to_string()), Err(TaskError::NotFound));
    let delete = Mutation::Delete { id: 1 };
    assert_eq!(perform(&mut ctx, &delete, "later".to_string()), Ok(()));
    assert_eq!(get_todos(&ctx).unwrap(), vec![]);
    let empty = Mutation::Create { title: String::new() };
    assert_eq!(perform(&mut ctx, &empty, "now".to_string()), Err(TaskError::ValidationError));
}

#[test]
fn messages_are_read_back() {
    for error in [
        TaskError::AuthUnavailable,
        TaskError::NotFound,
        TaskError::StoreError,
        TaskError::ValidationError,
    ] {
        assert_eq!(TaskError::classify(&error.message()), error);
    }
    assert_eq!(TaskError::classify(&"connection reset".to_string()), TaskError::StoreError);
    assert_eq!(TaskError::classify(&String::new()), TaskError::StoreError);
    assert_eq!(task_sync::service::CREATE_LATENCY_MS, 1250);
}

#[test]
fn error_messages() {
    assert_eq!(TaskError::AuthUnavailable.message(), "Auth session missing.");
    assert_eq!(TaskError::NotFound.message(), "Task not found.");
    assert_eq!(TaskError::StoreError.message(), "Pool missing.");
    assert_eq!(TaskError::ValidationError.message(), "Title must not be empty.");
}
