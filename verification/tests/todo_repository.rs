use todo_labels::errors::RepositoryError;
use todo_labels::todo::{CreateTodo, Todo, TodoRepository, TodoRepositoryForMemory, UpdateTodo};

#[test]
fn created_todo_is_found_unchanged() {
    let mut repo = TodoRepositoryForMemory::new();
    let created = repo
        .create(CreateTodo::new("water the plants".to_string(), vec![]))
        .expect("create failed");
    assert_eq!(created, Todo::new(1, "water the plants".to_string()));
    assert!(!created.completed);
    let found = repo.find(created.id).expect("find failed");
    assert_eq!(created, found);
}

#[test]
fn complete_item_scenario() {
    let mut repo = TodoRepositoryForMemory::new();
    let created = repo
        .create(CreateTodo::new("buy milk".to_string(), vec![]))
        .expect("create failed");
    assert_eq!(created.id, 1);
    assert!(!created.completed);
    let updated = repo
        .update(
            1,
            UpdateTodo {
                text: None,
                completed: Some(true),
            },
        )
        .expect("update failed");
    assert_eq!(updated.id, 1);
    assert_eq!(updated.text, "buy milk".to_string());
    assert!(updated.completed);
    assert_eq!(repo.find(1), Ok(updated));
}

#[test]
fn empty_update_leaves_todo_unchanged() {
    let mut repo = TodoRepositoryForMemory::new();
    let created = repo
        .create(CreateTodo::new("steady".to_string(), vec![]))
        .expect("create failed");
    let updated = repo
        .update(
            created.id,
            UpdateTodo {
                text: None,
                completed: None,
            },
        )
        .expect("update failed");
    assert_eq!(created, updated);
    assert_eq!(repo.find(created.id), Ok(created));
}

#[test]
fn todo_missing_id_yields_not_found_everywhere() {
    let mut repo = TodoRepositoryForMemory::new();
    assert_eq!(repo.find(3), Err(RepositoryError::NotFound(3)));
    assert_eq!(
        repo.update(
            3,
            UpdateTodo {
                text: None,
                completed: None,
            },
        ),
        Err(RepositoryError::NotFound(3))
    );
    assert_eq!(repo.delete(3), Err(RepositoryError::NotFound(3)));
}

#[test]
fn todo_second_delete_yields_not_found() {
    let mut repo = TodoRepositoryForMemory::new();
    let created = repo
        .create(CreateTodo::new("once".to_string(), vec![]))
        .expect("create failed");
    assert_eq!(repo.delete(created.id), Ok(()));
    assert_eq!(
        repo.delete(created.id),
        Err(RepositoryError::NotFound(created.id))
    );
}

#[test]
fn all_preserves_insertion_order() {
    let mut repo = TodoRepositoryForMemory::new();
    repo.create(CreateTodo::new("first".to_string(), vec![]))
        .expect("create failed");
    repo.create(CreateTodo::new("second".to_string(), vec![]))
        .expect("create failed");
    repo.create(CreateTodo::new("third".to_string(), vec![]))
        .expect("create failed");
    let todos = repo.all().expect("all failed");
    let texts: Vec<String> = todos.iter().map(|t| t.text.clone()).collect();
    assert_eq!(
        texts,
        vec![
            "first".to_string(),
            "second".to_string(),
            "third".to_string()
        ]
    );
    let ids: Vec<i32> = todos.iter().map(|t| t.id).collect();
    assert_eq!(ids, vec![1, 2, 3]);
}

#[test]
fn todo_text_validation() {
    assert!(!CreateTodo::new("".to_string(), vec![]).validate());
    assert!(CreateTodo::new("x".to_string(), vec![]).validate());
    assert!(UpdateTodo {
        text: None,
        completed: Some(true),
    }
    .validate());
    assert!(!UpdateTodo {
        text: Some("".to_string()),
        completed: None,
    }
    .validate());
}
