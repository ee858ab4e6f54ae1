use task_sync::error::TaskError;
use task_sync::identity::IdentityGateway;
use task_sync::service::{add_todo, delete_todo, get_todos, update_todo, Context};
use task_sync::store::TaskStore;
use task_sync::task::User;

fn alice() -> User {
    User { id: 1, username: "alice".to_string() }
}

fn bob() -> User {
    User { id: 2, username: "bob".to_string() }
}

fn context(current: Option<User>) -> Context {
    Context::new(TaskStore::new(), IdentityGateway::new(vec![alice(), bob()], current))
}

#[test]
fn anonymous_create_is_owned_by_nobody() {
    let mut ctx = context(None);
    assert_eq!(add_todo(&mut ctx, "Buy milk".to_string(), "2024-01-01 10:00:00".to_string()), Ok(()));
    let todos = get_todos(&ctx).unwrap();
    assert_eq!(todos.len(), 1);
    assert_eq!(todos[0].id, 1);
    assert_eq!(todos[0].title, "Buy milk");
    assert_eq!(todos[0].created_at, "2024-01-01 10:00:00");
    assert_eq!(todos[0].user, None);
    assert!(!todos[0].completed);
    assert_eq!(todos[0].owner_name(), "Guest");
    assert_eq!(ctx.store.owner_of(1), Ok(Some(-1)));
}

#[test]
fn authenticated_create_is_owned_by_the_caller() {
    let mut ctx = context(Some(alice()));
    assert_eq!(add_todo(&mut ctx, "Ship release".to_string(), "2024-01-02".to_string()), Ok(()));
    let todos = get_todos(&ctx).unwrap();
    assert_eq!(todos.len(), 1);
    assert_eq!(todos[0].user, Some(alice()));
    assert_eq!(todos[0].user.as_ref().unwrap().username, "alice");
    assert_eq!(todos[0].owner_name(), "alice");
    assert_eq!(ctx.store.owner_of(1), Ok(Some(1)));
}

#[test]
fn set_completed_shows_in_the_next_listing() {
    let mut ctx = context(None);
    for n in 0..7 {
        assert_eq!(add_todo(&mut ctx, format!("task {}", n), "t".to_string()), Ok(()));
    }
    assert_eq!(update_todo(&mut ctx, 7, true), Ok(()));
    let todos = get_todos(&ctx).unwrap();
    assert_eq!(todos.len(), 7);
    for todo in &todos {
        assert_eq!(todo.completed, todo.id == 7);
    }
    assert_eq!(todos[6].id, 7);
    assert_eq!(todos[6].title, "task 6");
}

#[test]
fn set_completed_on_a_missing_task_is_not_found() {
    let mut ctx = context(None);
    assert_eq!(add_todo(&mut ctx, "only".to_string(), "t".to_string()), Ok(()));
    let before = get_todos(&ctx).unwrap();
    assert_eq!(update_todo(&mut ctx, 999, true), Err(TaskError::NotFound));
    assert_eq!(get_todos(&ctx).unwrap(), before);
}

#[test]
fn two_creates_get_distinct_ids_and_both_appear() {
    let mut ctx = context(Some(bob()));
    assert_eq!(add_todo(&mut ctx, "first".to_string(), "t1".to_string()), Ok(()));
    assert_eq!(add_todo(&mut ctx, "second".to_string(), "t2".to_string()), Ok(()));
    let todos = get_todos(&ctx).unwrap();
    assert_eq!(todos.len(), 2);
    assert_ne!(todos[0].id, todos[1].id);
    assert_eq!((todos[0].id, todos[0].title.as_str()), (1, "first"));
    assert_eq!((todos[1].id, todos[1].title.as_str()), (2, "second"));
}

#[test]
fn delete_twice_is_the_same_as_once() {
    let mut ctx = context(None);
    assert_eq!(add_todo(&mut ctx, "keep".to_string(), "t".to_string()), Ok(()));
    assert_eq!(add_todo(&mut ctx, "drop".to_string(), "t".to_string()), Ok(()));
    assert_eq!(delete_todo(&mut ctx, 2), Ok(()));
    let once = get_todos(&ctx).unwrap();
    assert_eq!(once.len(), 1);
    assert_eq!(once[0].title, "keep");
    assert_eq!(delete_todo(&mut ctx, 2), Ok(()));
    assert_eq!(get_todos(&ctx).unwrap(), once);
}

#[test]
fn delete_of_a_task_that_never_was_succeeds() {
    let mut ctx = context(None);
    assert_eq!(delete_todo(&mut ctx, 40), Ok(()));
    assert_eq!(get_todos(&ctx).unwrap(), vec![]);
}

#[test]
fn listing_keeps_creation_order_through_toggles_and_deletes() {
    let mut ctx = context(None);
    for title in ["a", "b", "c", "d", "e"] {
        assert_eq!(add_todo(&mut ctx, title.to_string(), "t".to_string()), Ok(()));
    }
    assert_eq!(update_todo(&mut ctx, 4, true), Ok(()));
    assert_eq!(delete_todo(&mut ctx, 2), Ok(()));
    assert_eq!(update_todo(&mut ctx, 1, true), Ok(()));
    assert_eq!(add_todo(&mut ctx, "f".to_string(), "t".to_string()), Ok(()));
    assert_eq!(delete_todo(&mut ctx, 5), Ok(()));
    let todos = get_todos(&ctx).unwrap();
    let shown: Vec<(u32, &str, bool)> =
        todos.iter().map(|todo| (todo.id, todo.title.as_str(), todo.completed)).collect();
    assert_eq!(shown, vec![(1, "a", true), (3, "c", false), (4, "d", true), (6, "f", false)]);
}

#[test]
fn a_deleted_id_is_never_handed_out_again() {
    let mut ctx = context(None);
    assert_eq!(add_todo(&mut ctx, "a".to_string(), "t".to_string()), Ok(()));
    assert_eq!(delete_todo(&mut ctx, 1), Ok(()));
    assert_eq!(add_todo(&mut ctx, "b".to_string(), "t".to_string()), Ok(()));
    let todos = get_todos(&ctx).unwrap();
    assert_eq!(todos.len(), 1);
    assert_eq!(todos[0].id, 2);
}
