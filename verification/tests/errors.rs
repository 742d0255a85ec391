use srv_rs::error::Error;

#[test]
fn status_codes() {
    assert_eq!(Error::Unauthorized.status_code(), 401);
    assert_eq!(Error::Forbidden.status_code(), 403);
    assert_eq!(Error::NotFound.status_code(), 404);
    assert_eq!(
        Error::UnprocessableEntity { errors: Vec::new() }.status_code(),
        422
    );
    assert_eq!(Error::Unexpected("boom".to_string()).status_code(), 500);
}

#[test]
fn unprocessable_entity_groups_messages_by_key() {
    let pairs = vec![
        ("name".to_string(), "too short".to_string()),
        ("age".to_string(), "not a number".to_string()),
        ("name".to_string(), "contains digits".to_string()),
    ];
    let err = Error::unprocessable_entity(pairs);
    match err {
        Error::UnprocessableEntity { errors } => {
            assert_eq!(errors.len(), 2);
            assert_eq!(errors[0].0, "name");
            assert_eq!(
                errors[0].1,
                vec!["too short".to_string(), "contains digits".to_string()]
            );
            assert_eq!(errors[1].0, "age");
            assert_eq!(errors[1].1, vec!["not a number".to_string()]);
        }
        other => panic!("expected an unprocessable-entity error, got {other:?}"),
    }
}

#[test]
fn unprocessable_entity_of_nothing_is_empty() {
    match Error::unprocessable_entity(Vec::new()) {
        Error::UnprocessableEntity { errors } => assert!(errors.is_empty()),
        other => panic!("expected an unprocessable-entity error, got {other:?}"),
    }
}
