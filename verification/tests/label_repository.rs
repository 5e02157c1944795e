use todo_labels::errors::RepositoryError;
use todo_labels::label::{
    CreateLabel, Label, LabelRepository, LabelRepositoryForMemory, UpdateLabel,
};

#[test]
fn label_crud_scenario() {
    let name = "label name".to_string();
    let id = 1;
    let expected = Label::new(id, name.clone());

    let mut repo = LabelRepositoryForMemory::new();

    // create
    let label = repo
        .create(CreateLabel { name: name })
        .expect("failed create label");
    assert_eq!(expected, label);

    // all
    let labels = repo.all().expect("failed get all labels");
    assert_eq!(vec![label], labels);

    // delete
    repo.delete(id).expect("failed delete label");
    let labels = repo.all().expect("failed get all labels");
    assert_eq!(labels.len(), 0);
}

#[test]
fn created_label_is_found_unchanged() {
    let mut repo = LabelRepositoryForMemory::new();
    let created = repo
        .create(CreateLabel {
            name: "home".to_string(),
        })
        .expect("create failed");
    let found = repo.find(created.id).expect("find failed");
    assert_eq!(created, found);
}

#[test]
fn missing_id_yields_not_found_everywhere() {
    let mut repo = LabelRepositoryForMemory::new();
    assert_eq!(repo.find(7), Err(RepositoryError::NotFound(7)));
    assert_eq!(
        repo.update(7, UpdateLabel { name: None }),
        Err(RepositoryError::NotFound(7))
    );
    assert_eq!(repo.delete(7), Err(RepositoryError::NotFound(7)));
}

#[test]
fn deleted_id_yields_not_found_everywhere() {
    let mut repo = LabelRepositoryForMemory::new();
    let created = repo
        .create(CreateLabel {
            name: "gone".to_string(),
        })
        .expect("create failed");
    repo.delete(created.id).expect("first delete failed");
    assert_eq!(
        repo.find(created.id),
        Err(RepositoryError::NotFound(created.id))
    );
    assert_eq!(
        repo.update(created.id, UpdateLabel { name: None }),
        Err(RepositoryError::NotFound(created.id))
    );
    assert_eq!(
        repo.delete(created.id),
        Err(RepositoryError::NotFound(created.id))
    );
}

#[test]
fn second_delete_yields_not_found() {
    let mut repo = LabelRepositoryForMemory::new();
    let created = repo
        .create(CreateLabel {
            name: "once".to_string(),
        })
        .expect("create failed");
    assert_eq!(repo.delete(created.id), Ok(()));
    assert_eq!(
        repo.delete(created.id),
        Err(RepositoryError::NotFound(created.id))
    );
}

#[test]
fn empty_update_leaves_label_unchanged() {
    let mut repo = LabelRepositoryForMemory::new();
    let created = repo
        .create(CreateLabel {
            name: "steady".to_string(),
        })
        .expect("create failed");
    let updated = repo
        .update(created.id, UpdateLabel { name: None })
        .expect("update failed");
    assert_eq!(created, updated);
    assert_eq!(repo.find(created.id), Ok(Label::new(1, "steady".to_string())));
}

#[test]
fn update_replaces_name() {
    let mut repo = LabelRepositoryForMemory::new();
    let created = repo
        .create(CreateLabel {
            name: "old".to_string(),
        })
        .expect("create failed");
    let updated = repo
        .update(
            created.id,
            UpdateLabel {
                name: Some("new".to_string()),
            },
        )
        .expect("update failed");
    assert_eq!(updated, Label::new(created.id, "new".to_string()));
    assert_eq!(repo.find(created.id), Ok(updated));
}

#[test]
fn duplicate_name_is_rejected_with_first_id() {
    let mut repo = LabelRepositoryForMemory::new();
    let first = repo
        .create(CreateLabel {
            name: "work".to_string(),
        })
        .expect("first create failed");
    assert_eq!(first.id, 1);
    assert_eq!(
        repo.create(CreateLabel {
            name: "work".to_string(),
        }),
        Err(RepositoryError::Duplicate(first.id))
    );
    // the rejected create left the store unchanged
    assert_eq!(repo.all().expect("all failed").len(), 1);
}

#[test]
fn duplicate_then_delete_then_not_found_scenario() {
    let mut repo = LabelRepositoryForMemory::new();
    let created = repo
        .create(CreateLabel {
            name: "work".to_string(),
        })
        .expect("create failed");
    assert_eq!(created.id, 1);
    assert_eq!(
        repo.create(CreateLabel {
            name: "work".to_string(),
        }),
        Err(RepositoryError::Duplicate(1))
    );
    assert_eq!(repo.delete(1), Ok(()));
    assert_eq!(repo.find(1), Err(RepositoryError::NotFound(1)));
}

#[test]
fn all_returns_labels_ascending_by_id() {
    let mut repo = LabelRepositoryForMemory::new();
    repo.create(CreateLabel {
        name: "a".to_string(),
    })
    .expect("create failed");
    repo.create(CreateLabel {
        name: "b".to_string(),
    })
    .expect("create failed");
    repo.create(CreateLabel {
        name: "c".to_string(),
    })
    .expect("create failed");
    let labels = repo.all().expect("all failed");
    let ids: Vec<i32> = labels.iter().map(|l| l.id).collect();
    assert_eq!(ids, vec![1, 2, 3]);
}

#[test]
fn all_stays_ascending_after_interleaved_deletes() {
    let mut repo = LabelRepositoryForMemory::new();
    repo.create(CreateLabel {
        name: "a".to_string(),
    })
    .expect("create failed");
    repo.create(CreateLabel {
        name: "b".to_string(),
    })
    .expect("create failed");
    repo.delete(1).expect("delete failed");
    repo.create(CreateLabel {
        name: "c".to_string(),
    })
    .expect("create failed");
    let labels = repo.all().expect("all failed");
    let ids: Vec<i32> = labels.iter().map(|l| l.id).collect();
    // ids are never reused and stay ascending
    assert_eq!(ids, vec![2, 3]);
}

#[test]
fn find_by_user_returns_every_label() {
    let mut repo = LabelRepositoryForMemory::new();
    repo.create(CreateLabel {
        name: "a".to_string(),
    })
    .expect("create failed");
    repo.create(CreateLabel {
        name: "b".to_string(),
    })
    .expect("create failed");
    // the in-memory backend does not model ownership: every label comes back
    let for_user = repo.find_by_user(42).expect("find_by_user failed");
    let all = repo.all().expect("all failed");
    assert_eq!(for_user, all);
}

#[test]
fn label_name_validation_bounds() {
    assert!(!CreateLabel {
        name: "".to_string()
    }
    .validate());
    assert!(CreateLabel {
        name: "x".to_string()
    }
    .validate());
    assert!(CreateLabel {
        name: "y".repeat(100)
    }
    .validate());
    assert!(!CreateLabel {
        name: "y".repeat(101)
    }
    .validate());

    assert!(UpdateLabel { name: None }.validate());
    assert!(UpdateLabel {
        name: Some("z".to_string())
    }
    .validate());
    assert!(!UpdateLabel {
        name: Some("".to_string())
    }
    .validate());
    assert!(!UpdateLabel {
        name: Some("z".repeat(101))
    }
    .validate());
}
