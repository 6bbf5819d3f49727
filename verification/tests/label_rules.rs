use todo_repo::repositories::classify_query_error;
use todo_repo::repositories::decide_delete;
use todo_repo::repositories::label::decide_create;
use todo_repo::repositories::label::CreateLabel;
use todo_repo::repositories::label::Label;
use todo_repo::repositories::RepositoryError;

#[test]
fn duplicate_name_refused_with_existing_id() {
    let existing = Label {
        id: 5,
        name: "test_label".to_string(),
    };
    assert_eq!(
        decide_create(Some(existing)),
        Err(RepositoryError::Duplicate(5))
    );
}

#[test]
fn fresh_name_may_be_inserted() {
    assert_eq!(decide_create(None), Ok(()));
}

#[test]
fn delete_of_zero_rows_is_not_found() {
    assert_eq!(decide_delete(0, 9), Err(RepositoryError::NotFound(9)));
    assert_eq!(decide_delete(1, 9), Ok(()));
}

#[test]
fn failed_lookup_classification() {
    assert_eq!(
        classify_query_error(true, "no rows returned".to_string(), 3),
        RepositoryError::NotFound(3)
    );
    assert_eq!(
        classify_query_error(false, "connection reset".to_string(), 3),
        RepositoryError::UnexpectedError("connection reset".to_string())
    );
}

#[test]
fn create_label_validation_bounds() {
    assert!(!CreateLabel::new(String::new()).is_valid());
    assert!(CreateLabel::new("test_label".to_string()).is_valid());
    assert!(CreateLabel::new("a".repeat(100)).is_valid());
    assert!(!CreateLabel::new("a".repeat(101)).is_valid());
}

#[test]
fn labels_compare_by_value() {
    let a = Label {
        id: 1,
        name: "x".to_string(),
    };
    let b = a.clone();
    assert_eq!(a, b);
    let e = RepositoryError::UnexpectedError("boom".to_string());
    assert_eq!(e.clone(), e);
}
