use todo_repo::repositories::todo::CreateTodo;
use todo_repo::repositories::todo::Todo;
use todo_repo::repositories::todo::TodoRepository;
use todo_repo::repositories::todo::TodoRepositoryForMemory;
use todo_repo::repositories::todo::UpdateTodo;
use todo_repo::repositories::RepositoryError;

#[test]
fn todo_crud_scenario() {
    let text = "todo text".to_string();
    let id: i32 = 1;
    let expected = Todo::new(id, text.clone());

    //  create
    let mut repository = TodoRepositoryForMemory::new();
    let todo = repository
        .create(CreateTodo { text })
        .expect("failed create todo");
    assert_eq!(expected, todo);

    //  find
    let todo = repository.find(todo.id).unwrap();
    assert_eq!(expected, todo);

    //  all
    let todos = repository.all().expect("failed get all todo");
    assert_eq!(vec![expected], todos);

    //  update
    let text = "update todo text".to_string();
    let todo = repository
        .update(
            id,
            UpdateTodo {
                text: Some(text.clone()),
                completed: Some(true),
            },
        )
        .expect("failed update todo.");
    assert_eq!(
        Todo {
            id,
            text,
            completed: true
        },
        todo
    );

    //  delete
    let res = repository.delete(id);
    assert!(res.is_ok());
}

#[test]
fn find_after_delete_fails_not_found() {
    let mut repository = TodoRepositoryForMemory::new();
    let todo = repository
        .create(CreateTodo::new("todo text".to_string()))
        .unwrap();
    assert_eq!(todo.id, 1);
    let updated = repository
        .update(
            1,
            UpdateTodo {
                text: Some("update todo text".to_string()),
                completed: Some(true),
            },
        )
        .unwrap();
    assert_eq!(updated.text, "update todo text");
    assert!(updated.completed);
    repository.delete(1).unwrap();
    assert_eq!(repository.find(1), Err(RepositoryError::NotFound(1)));
}

#[test]
fn create_then_find_returns_created() {
    let mut repository = TodoRepositoryForMemory::new();
    let created = repository
        .create(CreateTodo::new("water the plants".to_string()))
        .unwrap();
    let found = repository.find(created.id).unwrap();
    assert_eq!(created, found);
}

#[test]
fn absent_ids_fail_not_found() {
    let mut repository = TodoRepositoryForMemory::new();
    assert_eq!(repository.find(7), Err(RepositoryError::NotFound(7)));
    assert_eq!(
        repository.update(
            7,
            UpdateTodo {
                text: Some("anything".to_string()),
                completed: None,
            },
        ),
        Err(RepositoryError::NotFound(7))
    );
    assert_eq!(repository.delete(7), Err(RepositoryError::NotFound(7)));
}

#[test]
fn delete_succeeds_once_then_fails_not_found() {
    let mut repository = TodoRepositoryForMemory::new();
    let created = repository
        .create(CreateTodo::new("only once".to_string()))
        .unwrap();
    assert_eq!(repository.delete(created.id), Ok(()));
    assert_eq!(
        repository.delete(created.id),
        Err(RepositoryError::NotFound(created.id))
    );
}

#[test]
fn update_patches_only_present_fields() {
    let mut repository = TodoRepositoryForMemory::new();
    let created = repository
        .create(CreateTodo::new("first draft".to_string()))
        .unwrap();

    // text only: completed keeps its prior value
    let patched = repository
        .update(
            created.id,
            UpdateTodo {
                text: Some("second draft".to_string()),
                completed: None,
            },
        )
        .unwrap();
    assert_eq!(patched.text, "second draft");
    assert_eq!(patched.completed, created.completed);

    // completed only: text keeps its prior value
    let patched = repository
        .update(
            created.id,
            UpdateTodo {
                text: None,
                completed: Some(true),
            },
        )
        .unwrap();
    assert_eq!(patched.text, "second draft");
    assert!(patched.completed);

    // empty patch: the record comes back unchanged
    let unchanged = repository
        .update(
            created.id,
            UpdateTodo {
                text: None,
                completed: None,
            },
        )
        .unwrap();
    assert_eq!(unchanged, patched);
    let found = repository.find(created.id).unwrap();
    assert_eq!(found, patched);
}

#[test]
fn ids_are_never_reused_after_delete() {
    let mut repository = TodoRepositoryForMemory::new();
    let first = repository.create(CreateTodo::new("a".to_string())).unwrap();
    let second = repository.create(CreateTodo::new("b".to_string())).unwrap();
    assert_eq!(first.id, 1);
    assert_eq!(second.id, 2);
    repository.delete(1).unwrap();
    let third = repository.create(CreateTodo::new("c".to_string())).unwrap();
    assert_eq!(third.id, 3);
    assert_eq!(repository.find(1), Err(RepositoryError::NotFound(1)));
    assert_eq!(repository.find(3).unwrap(), third);
}

#[test]
fn all_lists_every_record_exactly_once() {
    let mut repository = TodoRepositoryForMemory::new();
    let a = repository.create(CreateTodo::new("a".to_string())).unwrap();
    let b = repository.create(CreateTodo::new("b".to_string())).unwrap();
    let c = repository.create(CreateTodo::new("c".to_string())).unwrap();
    let mut todos = repository.all().unwrap();
    todos.sort_by_key(|t| t.id);
    assert_eq!(todos, vec![a, b, c]);
}

#[test]
fn merge_keeps_id_and_absent_fields() {
    let current = Todo::from_row(9, "before".to_string(), true);
    let merged = todo_repo::repositories::todo::merge_todo(
        current,
        UpdateTodo {
            text: Some("after".to_string()),
            completed: None,
        },
    );
    assert_eq!(
        merged,
        Todo {
            id: 9,
            text: "after".to_string(),
            completed: true
        }
    );
}

#[test]
fn folding_a_row_is_lossless() {
    let row = Todo::from_row(4, "from the table".to_string(), true);
    assert_eq!(row.id, 4);
    assert_eq!(row.text, "from the table");
    assert!(row.completed);
}

#[test]
fn create_todo_validation_bounds() {
    assert!(!CreateTodo::new(String::new()).is_valid());
    assert!(CreateTodo::new("a".to_string()).is_valid());
    assert!(CreateTodo::new("a".repeat(100)).is_valid());
    assert!(!CreateTodo::new("a".repeat(101)).is_valid());
}
